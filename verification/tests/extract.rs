use celestia_types::nmt::Namespace;
use ods_grid::cell::ODSCell;
use ods_grid::ods::{DecodeError, ODS};
use ods_grid::share::Share;
use ods_grid::square::ExtendedDataSquare;

const SHARE_SIZE: usize = 512;

fn raw_share(version: u8, id: &[u8]) -> Vec<u8> {
    let mut raw = vec![0u8; SHARE_SIZE];
    raw[0] = version;
    raw[1..29].copy_from_slice(id);
    raw[29] = 1;
    raw
}

fn user_id(tail: [u8; 2]) -> Vec<u8> {
    let mut id = vec![0u8; 26];
    id.extend_from_slice(&tail);
    id
}

fn garbage() -> Vec<u8> {
    vec![7u8; 3]
}

/// A square of the given width whose top-left quadrant holds `quadrant`
/// row by row and whose other shares do not decode.
fn square(width: u16, quadrant: &[Vec<u8>]) -> ExtendedDataSquare {
    let half = (width / 2) as usize;
    let mut shares = Vec::new();
    for row in 0..width as usize {
        for column in 0..width as usize {
            if row < half && column < half {
                shares.push(quadrant[row * half + column].clone());
            } else {
                shares.push(garbage());
            }
        }
    }
    ExtendedDataSquare::new(shares, width)
}

#[test]
fn four_transaction_shares() {
    let tx = raw_share(0, Namespace::TRANSACTION.id());
    let eds = square(4, &[tx.clone(), tx.clone(), tx.clone(), tx]);
    let ods = ODS::from_eds(eds, 42).unwrap();
    assert_eq!(ods.height, 42);
    assert_eq!(ods.cells.len(), 2);
    for row in &ods.cells {
        assert_eq!(row.len(), 2);
        for cell in row {
            assert_eq!(cell.id, "TRANSACTION");
            assert_eq!(cell.rgb, ods.cells[0][0].rgb);
        }
    }
    assert_eq!(ods.cells[0][0].rgb, (11, 211, 21));
    let legend = ods.legend();
    assert_eq!(legend.len(), 1);
    assert_eq!(legend.entries[0].id, "TRANSACTION");
    assert_eq!(legend.entries[0].rgb, (11, 211, 21));
}

#[test]
fn single_user_share() {
    let id = user_id([0xAB, 0xCD]);
    let eds = square(2, &[raw_share(0, &id)]);
    let ods = ODS::from_eds(eds, 7).unwrap();
    assert_eq!(ods.height, 7);
    assert_eq!(ods.cells.len(), 1);
    assert_eq!(ods.cells[0].len(), 1);
    assert_eq!(ods.cells[0][0].id, "AAAAAAAAAAAAAAAAAAAAAAAAAAAAAAAAAACrzQ==");
    assert_eq!(ods.cells[0][0], ODSCell::from_share(Share { namespace: id }));
}

#[test]
fn cells_keep_the_place_of_their_shares() {
    let quadrant = vec![
        raw_share(0, Namespace::TRANSACTION.id()),
        raw_share(0, Namespace::PAY_FOR_BLOB.id()),
        raw_share(0, &user_id([1, 2])),
        raw_share(255, Namespace::TAIL_PADDING.id()),
    ];
    let ods = ODS::from_eds(square(4, &quadrant), 1).unwrap();
    assert_eq!(ods.cells.len(), 2);
    assert_eq!(ods.cells[0].len(), 2);
    assert_eq!(ods.cells[1].len(), 2);
    assert_eq!(ods.cells[0][0].id, "TRANSACTION");
    assert_eq!(ods.cells[0][1].id, "PAY_FOR_BLOB");
    assert_eq!(ods.cells[1][0].id, "AAAAAAAAAAAAAAAAAAAAAAAAAAAAAAAAAAABAg==");
    assert_eq!(ods.cells[1][1].id, "TAIL_PADDING_NAMESPACE");
}

#[test]
fn cells_come_from_the_top_left_quadrant_only() {
    // a full square of decodable shares, each with a namespace of its own
    let width: u16 = 4;
    let mut shares = Vec::new();
    for row in 0..width as u8 {
        for column in 0..width as u8 {
            shares.push(raw_share(0, &user_id([row + 1, column + 1])));
        }
    }
    let ods = ODS::from_eds(ExtendedDataSquare::new(shares, width), 3).unwrap();
    assert_eq!(ods.cells.len(), 2);
    for row in 0..2u8 {
        assert_eq!(ods.cells[row as usize].len(), 2);
        for column in 0..2u8 {
            let expected =
                ODSCell::from_share(Share { namespace: user_id([row + 1, column + 1]) });
            assert_eq!(ods.cells[row as usize][column as usize], expected);
        }
    }
}

#[test]
fn width_zero_is_refused() {
    let eds = ExtendedDataSquare::new(Vec::new(), 0);
    assert_eq!(ODS::from_eds(eds, 1), Err(DecodeError::EmptySquare));
}

#[test]
fn odd_width_is_refused() {
    let tx = raw_share(0, Namespace::TRANSACTION.id());
    let eds = ExtendedDataSquare::new(vec![tx.clone(); 9], 3);
    assert_eq!(ODS::from_eds(eds, 1), Err(DecodeError::OddWidth { width: 3 }));
    let eds = ExtendedDataSquare::new(vec![tx], 1);
    assert_eq!(ODS::from_eds(eds, 1), Err(DecodeError::OddWidth { width: 1 }));
}

#[test]
fn share_count_must_be_the_width_squared() {
    let tx = raw_share(0, Namespace::TRANSACTION.id());
    let eds = ExtendedDataSquare::new(vec![tx.clone(); 3], 2);
    assert_eq!(ODS::from_eds(eds, 1), Err(DecodeError::NotSquare { width: 2, shares: 3 }));
    let eds = ExtendedDataSquare::new(vec![tx.clone(); 5], 2);
    assert_eq!(ODS::from_eds(eds, 1), Err(DecodeError::NotSquare { width: 2, shares: 5 }));
    let eds = ExtendedDataSquare::new(Vec::new(), 2);
    assert_eq!(ODS::from_eds(eds, 1), Err(DecodeError::NotSquare { width: 2, shares: 0 }));
}

#[test]
fn undecodable_share_is_refused() {
    let tx = raw_share(0, Namespace::TRANSACTION.id());
    for bad in 0..4usize {
        let mut quadrant = vec![tx.clone(); 4];
        quadrant[bad].truncate(100);
        let expected = DecodeError::InvalidShare { row: (bad / 2) as u16, column: (bad % 2) as u16 };
        assert_eq!(ODS::from_eds(square(4, &quadrant), 1), Err(expected));
    }
}

#[test]
fn first_undecodable_share_is_reported() {
    let tx = raw_share(0, Namespace::TRANSACTION.id());
    let quadrant = vec![tx.clone(), garbage(), garbage(), tx];
    assert_eq!(
        ODS::from_eds(square(4, &quadrant), 1),
        Err(DecodeError::InvalidShare { row: 0, column: 1 })
    );
}

#[test]
fn shape_is_checked_before_shares() {
    let eds = ExtendedDataSquare::new(vec![garbage(); 9], 3);
    assert_eq!(ODS::from_eds(eds, 1), Err(DecodeError::OddWidth { width: 3 }));
    let eds = ExtendedDataSquare::new(vec![garbage(); 3], 2);
    assert_eq!(ODS::from_eds(eds, 1), Err(DecodeError::NotSquare { width: 2, shares: 3 }));
}

#[test]
fn share_decoding_follows_the_share_format() {
    let id = user_id([9, 9]);
    assert_eq!(Share::from_raw(&raw_share(0, &id)), Some(Share { namespace: id.clone() }));
    let tail = Namespace::TAIL_PADDING.id();
    assert_eq!(Share::from_raw(&raw_share(255, tail)), Some(Share { namespace: tail.to_vec() }));
    // wrong sizes
    assert_eq!(Share::from_raw(&[]), None);
    assert_eq!(Share::from_raw(&raw_share(0, &id)[..511]), None);
    let mut long = raw_share(0, &id);
    long.push(0);
    assert_eq!(Share::from_raw(&long), None);
    // unsupported namespace version
    assert_eq!(Share::from_raw(&raw_share(1, &id)), None);
    assert_eq!(Share::from_raw(&raw_share(254, tail)), None);
    // version 0 with a byte in the zero prefix
    let mut bad = id.clone();
    bad[17] = 1;
    assert_eq!(Share::from_raw(&raw_share(0, &bad)), None);
    let mut edge = id.clone();
    edge[18] = 1;
    assert_eq!(Share::from_raw(&raw_share(0, &edge)), Some(Share { namespace: edge }));
    // version 255 with a byte off in the filling
    let mut bad = tail.to_vec();
    bad[26] = 0;
    assert_eq!(Share::from_raw(&raw_share(255, &bad)), None);
    // any info byte is accepted
    let mut raw = raw_share(0, &id);
    raw[29] = 0xff;
    assert_eq!(Share::from_raw(&raw), Some(Share { namespace: id }));
}

#[test]
fn library_decoding_agrees_with_the_protocol_crate() {
    let id = user_id([3, 4]);
    let raw = raw_share(0, &id);
    let theirs = celestia_types::Share::from_raw(&raw).unwrap();
    let ours = Share::from_raw(&raw).unwrap();
    assert_eq!(ours.namespace, theirs.namespace().id());
    assert!(celestia_types::Share::from_raw(&raw_share(3, &id)).is_err());
}

#[test]
fn empty_block_square() {
    let theirs = celestia_types::ExtendedDataSquare::empty();
    let shares: Vec<Vec<u8>> = theirs.data_square().iter().map(|share| share.to_vec()).collect();
    let eds = ExtendedDataSquare::new(shares, theirs.square_width());
    let ods = ODS::from_eds(eds, 1).unwrap();
    assert_eq!(ods.cells.len(), 1);
    assert_eq!(ods.cells[0].len(), 1);
    assert_eq!(ods.cells[0][0].id, "TAIL_PADDING_NAMESPACE");
}

#[test]
fn square_accessors() {
    let eds = ExtendedDataSquare::new(vec![vec![1], vec![2], vec![3], vec![4]], 2);
    assert_eq!(eds.square_width(), 2);
    assert_eq!(eds.share(0, 0), Some(&[1u8][..]));
    assert_eq!(eds.share(0, 1), Some(&[2u8][..]));
    assert_eq!(eds.share(1, 0), Some(&[3u8][..]));
    assert_eq!(eds.share(1, 1), Some(&[4u8][..]));
    assert_eq!(eds.share(2, 0), None);
    assert_eq!(eds.share(65535, 65535), None);
}
