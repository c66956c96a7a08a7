use base64::Engine;
use celestia_types::nmt::Namespace;
use ods_grid::cell::ODSCell;
use ods_grid::digest::{color, rgb_from_digest};
use ods_grid::encoding::encode;
use ods_grid::namespace::{find_reserved, identifier, Reserved};
use ods_grid::share::Share;

fn share_of(namespace: &[u8]) -> Share {
    Share { namespace: namespace.to_vec() }
}

fn user_namespace() -> Vec<u8> {
    let mut id = vec![0u8; 18];
    id.extend_from_slice(&[1, 2, 3, 4, 5, 6, 7, 8, 0xAB, 0xCD]);
    id
}

#[test]
fn classification_is_deterministic() {
    let first = ODSCell::from_share(share_of(&user_namespace()));
    let second = ODSCell::from_share(share_of(&user_namespace()));
    assert_eq!(first.id, second.id);
    assert_eq!(first.rgb, second.rgb);
    assert_eq!(first, second);
}

#[test]
fn transaction_namespace_has_its_label() {
    let cell = ODSCell::from_share(share_of(Namespace::TRANSACTION.id()));
    assert_eq!(cell.id, "TRANSACTION");
    assert_eq!(cell.rgb, (11, 211, 21));
}

#[test]
fn pay_for_blob_namespace_has_its_label() {
    let cell = ODSCell::from_share(share_of(Namespace::PAY_FOR_BLOB.id()));
    assert_eq!(cell.id, "PAY_FOR_BLOB");
    assert_eq!(cell.rgb, (231, 7, 120));
}

#[test]
fn primary_reserved_padding_namespace_has_its_label() {
    let cell = ODSCell::from_share(share_of(Namespace::PRIMARY_RESERVED_PADDING.id()));
    assert_eq!(cell.id, "PRIMARY_RESERVED_PADDING");
    assert_eq!(cell.rgb, (237, 170, 215));
}

#[test]
fn min_secondary_reserved_namespace_has_its_label() {
    let cell = ODSCell::from_share(share_of(Namespace::MIN_SECONDARY_RESERVED.id()));
    assert_eq!(cell.id, "MIN_SECONDARY_RESERVED");
    assert_eq!(cell.rgb, (69, 65, 212));
}

#[test]
fn tail_padding_namespace_has_its_label() {
    let cell = ODSCell::from_share(share_of(Namespace::TAIL_PADDING.id()));
    assert_eq!(cell.id, "TAIL_PADDING_NAMESPACE");
    assert_eq!(cell.rgb, (144, 101, 102));
}

#[test]
fn reserved_identifiers_are_those_of_the_protocol() {
    assert_eq!(Reserved::Transaction.namespace_id(), Namespace::TRANSACTION.id());
    assert_eq!(Reserved::PayForBlob.namespace_id(), Namespace::PAY_FOR_BLOB.id());
    assert_eq!(
        Reserved::PrimaryReservedPadding.namespace_id(),
        Namespace::PRIMARY_RESERVED_PADDING.id()
    );
    assert_eq!(
        Reserved::MinSecondaryReserved.namespace_id(),
        Namespace::MIN_SECONDARY_RESERVED.id()
    );
    assert_eq!(Reserved::TailPadding.namespace_id(), Namespace::TAIL_PADDING.id());
}

#[test]
fn reserved_names() {
    assert_eq!(Reserved::Transaction.name(), "TRANSACTION");
    assert_eq!(Reserved::PayForBlob.name(), "PAY_FOR_BLOB");
    assert_eq!(Reserved::PrimaryReservedPadding.name(), "PRIMARY_RESERVED_PADDING");
    assert_eq!(Reserved::MinSecondaryReserved.name(), "MIN_SECONDARY_RESERVED");
    assert_eq!(Reserved::TailPadding.name(), "TAIL_PADDING_NAMESPACE");
}

#[test]
fn find_reserved_knows_the_five() {
    assert_eq!(find_reserved(Namespace::TRANSACTION.id()), Some(Reserved::Transaction));
    assert_eq!(find_reserved(Namespace::PAY_FOR_BLOB.id()), Some(Reserved::PayForBlob));
    assert_eq!(
        find_reserved(Namespace::PRIMARY_RESERVED_PADDING.id()),
        Some(Reserved::PrimaryReservedPadding)
    );
    assert_eq!(
        find_reserved(Namespace::MIN_SECONDARY_RESERVED.id()),
        Some(Reserved::MinSecondaryReserved)
    );
    assert_eq!(find_reserved(Namespace::TAIL_PADDING.id()), Some(Reserved::TailPadding));
}

#[test]
fn find_reserved_refuses_the_rest() {
    assert_eq!(find_reserved(&[]), None);
    assert_eq!(find_reserved(&[0xAB, 0xCD]), None);
    assert_eq!(find_reserved(&user_namespace()), None);
    assert_eq!(find_reserved(Namespace::PARITY_SHARE.id()), None);
    assert_eq!(find_reserved(&[0u8; 28]), None);
    // one byte short, one byte long
    assert_eq!(find_reserved(&Namespace::TRANSACTION.id()[1..]), None);
    let mut long = Namespace::TRANSACTION.id().to_vec();
    long.insert(0, 0);
    assert_eq!(find_reserved(&long), None);
    // a single byte off in the filling
    let mut off = Namespace::TAIL_PADDING.id().to_vec();
    off[13] = 0xFE;
    assert_eq!(find_reserved(&off), None);
}

#[test]
fn unreserved_namespace_is_shown_as_base64() {
    let namespace = user_namespace();
    let cell = ODSCell::from_share(share_of(&namespace));
    assert_eq!(cell.id, "AAAAAAAAAAAAAAAAAAAAAAAAAQIDBAUGBwirzQ==");
    assert_eq!(cell.rgb, (88, 44, 104));
    let decoded = base64::engine::general_purpose::STANDARD.decode(&cell.id).unwrap();
    assert_eq!(decoded, namespace);
}

#[test]
fn two_byte_namespace() {
    let cell = ODSCell::from_share(share_of(&[0xAB, 0xCD]));
    assert_eq!(cell.id, "q80=");
    assert_eq!(cell.rgb, (0x0f, 0x11, 0x08));
    let decoded = base64::engine::general_purpose::STANDARD.decode(&cell.id).unwrap();
    assert_eq!(decoded, vec![0xAB, 0xCD]);
}

#[test]
fn empty_namespace() {
    let cell = ODSCell::from_share(share_of(&[]));
    assert_eq!(cell.id, "");
    assert_eq!(cell.rgb, (0xa7, 0xff, 0xc6));
}

#[test]
fn parity_namespace_has_no_label() {
    let cell = ODSCell::from_share(share_of(Namespace::PARITY_SHARE.id()));
    assert_eq!(cell.id, "/////////////////////////////////////w==");
    assert_eq!(cell.rgb, (48, 193, 159));
}

#[test]
fn identifier_agrees_with_the_cell() {
    assert_eq!(identifier(Namespace::TRANSACTION.id()), "TRANSACTION");
    assert_eq!(identifier(&[0xAB, 0xCD]), "q80=");
}

#[test]
fn base64_of_known_texts() {
    assert_eq!(encode(b""), "");
    assert_eq!(encode(b"f"), "Zg==");
    assert_eq!(encode(b"fo"), "Zm8=");
    assert_eq!(encode(b"foo"), "Zm9v");
    assert_eq!(encode(b"foob"), "Zm9vYg==");
    assert_eq!(encode(b"fooba"), "Zm9vYmE=");
    assert_eq!(encode(b"foobar"), "Zm9vYmFy");
    assert_eq!(encode(&[0xfb, 0xff, 0xbf]), "+/+/");
}

#[test]
fn base64_reads_back_every_byte() {
    let bytes: Vec<u8> = (0..=255u8).collect();
    for len in 0..bytes.len() {
        let text = encode(&bytes[..len]);
        assert_eq!(text.len(), (len + 2) / 3 * 4);
        let decoded = base64::engine::general_purpose::STANDARD.decode(&text).unwrap();
        assert_eq!(decoded, &bytes[..len]);
    }
}

#[test]
fn color_is_the_head_of_the_digest() {
    assert_eq!(color(b"abc"), (0x3a, 0x98, 0x5d));
    assert_eq!(color(b""), (0xa7, 0xff, 0xc6));
    assert_eq!(color(&[0xAB, 0xCD]), (0x0f, 0x11, 0x08));
}

#[test]
fn rgb_from_digest_takes_three_bytes() {
    let mut digest = [0u8; 32];
    for (k, byte) in digest.iter_mut().enumerate() {
        *byte = 10 + k as u8;
    }
    assert_eq!(rgb_from_digest(&digest), (10, 11, 12));
}
