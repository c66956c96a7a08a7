//! One cell of the grid: what a share is shown as.

use vstd::prelude::*;
use crate::digest::{color, color_of, Rgb};
use crate::encoding::{base64_decoding, base64_encoding, base64_len, lemma_base64_round_trip};
use crate::namespace::{
    identifier, identifier_of, lemma_filled_id_parts, lemma_identifier_is_injective,
    lemma_label_is_not_base64, reserved_of, Reserved,
};
use crate::share::Share;

verus! {

/// What a cell shows: an identifier and a colour.
pub struct CellView {
    pub id: Seq<char>,
    pub rgb: Rgb,
}

/// A share as it is shown: the display identifier of its namespace and the
/// colour of its namespace.
#[derive(Debug, PartialEq, Eq)]
pub struct ODSCell {
    pub id: String,
    pub rgb: Rgb,
}

impl View for ODSCell {
    type V = CellView;

    open spec fn view(&self) -> CellView {
        CellView { id: self.id@, rgb: self.rgb }
    }
}

/// The cell of a namespace: its display identifier, and the colour drawn
/// from the digest of its identifier bytes.
pub open spec fn classification(namespace: Seq<u8>) -> CellView {
    CellView { id: identifier_of(namespace), rgb: color_of(namespace) }
}

impl ODSCell {
    /// Classifies a share by its namespace alone.
    pub fn from_share(share: Share) -> (cell: ODSCell)
        requires
            base64_len(share@.len() as int) <= usize::MAX,
        ensures
            cell@ == classification(share@),
    {
        let rgb = color(share.namespace.as_slice());
        let id = identifier(share.namespace.as_slice());
        ODSCell { id, rgb }
    }
}

/// Shares with the same namespace are shown as the same cell.
pub proof fn lemma_same_namespace_same_cell(a: Share, b: Share)
    requires
        a@ == b@,
    ensures
        classification(a@) == classification(b@),
{
}

/// Each reserved namespace is shown under its fixed label, never as base64
/// text.
pub proof fn lemma_reserved_labels(reserved: Reserved)
    ensures
        classification(reserved.id()).id == reserved.label(),
        classification(Reserved::Transaction.id()).id == "TRANSACTION"@,
        classification(Reserved::PayForBlob.id()).id == "PAY_FOR_BLOB"@,
        classification(Reserved::PrimaryReservedPadding.id()).id == "PRIMARY_RESERVED_PADDING"@,
        classification(Reserved::MinSecondaryReserved.id()).id == "MIN_SECONDARY_RESERVED"@,
        classification(Reserved::TailPadding.id()).id == "TAIL_PADDING_NAMESPACE"@,
        classification(reserved.id()).id != base64_encoding(reserved.id()),
{
    lemma_filled_id_parts();
    lemma_label_is_not_base64(reserved, reserved.id());
}

/// A namespace that is not reserved is shown as the base64 text of its
/// identifier bytes, and decoding that text gives the bytes back.
pub proof fn lemma_unreserved_identifier(namespace: Seq<u8>)
    requires
        reserved_of(namespace) is None,
    ensures
        classification(namespace).id == base64_encoding(namespace),
        base64_decoding(classification(namespace).id) == Some(namespace),
{
    lemma_base64_round_trip(namespace);
}

/// The identifier of a cell decides its colour: two namespaces shown under
/// the same identifier are shown in the same colour.
pub proof fn lemma_identifier_decides_color(a: Seq<u8>, b: Seq<u8>)
    requires
        classification(a).id == classification(b).id,
    ensures
        classification(a).rgb == classification(b).rgb,
{
    lemma_identifier_is_injective(a, b);
}

} // verus!
