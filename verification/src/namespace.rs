//! The reserved namespaces and the display identifier of every namespace.

use vstd::prelude::*;
use vstd::string::StringExecFns;
use crate::encoding::{
    base64_encoding, base64_len, encode, lemma_base64_characters, lemma_base64_len,
    lemma_base64_round_trip, symbol_value,
};

verus! {

/// Number of bytes in a namespace identifier.
pub const NAMESPACE_ID_SIZE: usize = 28;

/// The namespaces with a meaning of their own in the protocol.
#[derive(Clone, Copy, Debug, PartialEq, Eq, Structural)]
pub enum Reserved {
    Transaction,
    PayForBlob,
    PrimaryReservedPadding,
    MinSecondaryReserved,
    TailPadding,
}

/// An identifier of full size: twenty-seven times the byte `fill`, then the
/// byte `last`.
pub open spec fn filled_id(fill: u8, last: u8) -> Seq<u8> {
    Seq::new(
        NAMESPACE_ID_SIZE as nat,
        |k: int|
            if k < NAMESPACE_ID_SIZE - 1 {
                fill
            } else {
                last
            },
    )
}

impl Reserved {
    /// The byte that fills the identifier up to its last byte.
    pub open spec fn fill(self) -> u8 {
        match self {
            Reserved::Transaction | Reserved::PayForBlob | Reserved::PrimaryReservedPadding => 0,
            Reserved::MinSecondaryReserved | Reserved::TailPadding => 255,
        }
    }

    /// The last byte of the identifier.
    pub open spec fn last(self) -> u8 {
        match self {
            Reserved::Transaction => 1,
            Reserved::PayForBlob => 4,
            Reserved::PrimaryReservedPadding => 255,
            Reserved::MinSecondaryReserved => 0,
            Reserved::TailPadding => 254,
        }
    }

    /// The identifier bytes of this reserved namespace.
    pub open spec fn id(self) -> Seq<u8> {
        filled_id(self.fill(), self.last())
    }

    /// The fixed label under which this reserved namespace is shown.
    pub open spec fn label(self) -> Seq<char> {
        match self {
            Reserved::Transaction => "TRANSACTION"@,
            Reserved::PayForBlob => "PAY_FOR_BLOB"@,
            Reserved::PrimaryReservedPadding => "PRIMARY_RESERVED_PADDING"@,
            Reserved::MinSecondaryReserved => "MIN_SECONDARY_RESERVED"@,
            Reserved::TailPadding => "TAIL_PADDING_NAMESPACE"@,
        }
    }

    /// The identifier bytes of this reserved namespace.
    pub fn namespace_id(&self) -> (id: Vec<u8>)
        ensures
            id@ == self.id(),
    {
        let (fill, last): (u8, u8) = match self {
            Reserved::Transaction => (0, 1),
            Reserved::PayForBlob => (0, 4),
            Reserved::PrimaryReservedPadding => (0, 255),
            Reserved::MinSecondaryReserved => (255, 0),
            Reserved::TailPadding => (255, 254),
        };
        let mut id: Vec<u8> = Vec::new();
        while id.len() < NAMESPACE_ID_SIZE - 1
            invariant
                id@.len() <= NAMESPACE_ID_SIZE - 1,
                forall|k: int| 0 <= k < id@.len() ==> id@[k] == fill,
            decreases NAMESPACE_ID_SIZE - 1 - id@.len(),
        {
            id.push(fill);
        }
        id.push(last);
        assert(id@ =~= self.id());
        id
    }

    /// The fixed label under which this reserved namespace is shown.
    pub fn name(&self) -> (label: String)
        ensures
            label@ == self.label(),
    {
        match self {
            Reserved::Transaction => String::from_str("TRANSACTION"),
            Reserved::PayForBlob => String::from_str("PAY_FOR_BLOB"),
            Reserved::PrimaryReservedPadding => String::from_str("PRIMARY_RESERVED_PADDING"),
            Reserved::MinSecondaryReserved => String::from_str("MIN_SECONDARY_RESERVED"),
            Reserved::TailPadding => String::from_str("TAIL_PADDING_NAMESPACE"),
        }
    }
}

/// The reserved namespace with the given identifier bytes, if there is one.
pub open spec fn reserved_of(id: Seq<u8>) -> Option<Reserved> {
    if id == Reserved::Transaction.id() {
        Some(Reserved::Transaction)
    } else if id == Reserved::PayForBlob.id() {
        Some(Reserved::PayForBlob)
    } else if id == Reserved::PrimaryReservedPadding.id() {
        Some(Reserved::PrimaryReservedPadding)
    } else if id == Reserved::MinSecondaryReserved.id() {
        Some(Reserved::MinSecondaryReserved)
    } else if id == Reserved::TailPadding.id() {
        Some(Reserved::TailPadding)
    } else {
        None
    }
}

/// The display identifier of a namespace: the label of a reserved namespace,
/// the base64 text of the identifier bytes of any other.
pub open spec fn identifier_of(id: Seq<u8>) -> Seq<char> {
    match reserved_of(id) {
        Some(reserved) => reserved.label(),
        None => base64_encoding(id),
    }
}

/// Whether `id` is twenty-seven times the byte `fill` followed by one more
/// byte.
fn is_filled(id: &[u8], fill: u8) -> (r: bool)
    ensures
        r <==> id@.len() == NAMESPACE_ID_SIZE && id@ == filled_id(fill, id@[NAMESPACE_ID_SIZE - 1]),
{
    if id.len() != NAMESPACE_ID_SIZE {
        return false;
    }
    let mut k: usize = 0;
    while k < NAMESPACE_ID_SIZE - 1
        invariant
            k <= NAMESPACE_ID_SIZE - 1,
            id@.len() == NAMESPACE_ID_SIZE,
            forall|m: int| 0 <= m < k ==> id@[m] == fill,
        decreases NAMESPACE_ID_SIZE - 1 - k,
    {
        if id[k] != fill {
            assert(filled_id(fill, id@[NAMESPACE_ID_SIZE - 1])[k as int] == fill);
            return false;
        }
        k += 1;
    }
    assert(id@ =~= filled_id(fill, id@[NAMESPACE_ID_SIZE - 1]));
    true
}

/// Looks the identifier bytes up among the reserved namespaces.
pub fn find_reserved(id: &[u8]) -> (r: Option<Reserved>)
    ensures
        r == reserved_of(id@),
{
    proof {
        lemma_filled_id_parts();
    }
    if is_filled(id, 0) {
        let last = id[NAMESPACE_ID_SIZE - 1];
        if last == 1 {
            Some(Reserved::Transaction)
        } else if last == 4 {
            Some(Reserved::PayForBlob)
        } else if last == 255 {
            Some(Reserved::PrimaryReservedPadding)
        } else {
            None
        }
    } else if is_filled(id, 255) {
        let last = id[NAMESPACE_ID_SIZE - 1];
        if last == 0 {
            Some(Reserved::MinSecondaryReserved)
        } else if last == 254 {
            Some(Reserved::TailPadding)
        } else {
            None
        }
    } else {
        None
    }
}

/// Two filled identifiers are equal only if they agree in both bytes.
pub(crate) proof fn lemma_filled_id_parts()
    ensures
        forall|f1: u8, l1: u8, f2: u8, l2: u8|
            #[trigger] filled_id(f1, l1) == #[trigger] filled_id(f2, l2) ==> f1 == f2 && l1 == l2,
        forall|f: u8, l: u8| (#[trigger] filled_id(f, l)).len() == NAMESPACE_ID_SIZE,
{
    assert forall|f1: u8, l1: u8, f2: u8, l2: u8|
        #[trigger] filled_id(f1, l1) == #[trigger] filled_id(f2, l2) implies f1 == f2 && l1
        == l2 by {
        assert(filled_id(f1, l1)[0] == f1);
        assert(filled_id(f2, l2)[0] == f2);
        assert(filled_id(f1, l1)[NAMESPACE_ID_SIZE - 1] == l1);
        assert(filled_id(f2, l2)[NAMESPACE_ID_SIZE - 1] == l2);
    }
}

/// No label is the base64 text of any byte string.
pub proof fn lemma_label_is_not_base64(reserved: Reserved, bytes: Seq<u8>)
    ensures
        reserved.label() != base64_encoding(bytes),
{
    reveal_strlit("TRANSACTION");
    reveal_strlit("PAY_FOR_BLOB");
    reveal_strlit("PRIMARY_RESERVED_PADDING");
    reveal_strlit("MIN_SECONDARY_RESERVED");
    reveal_strlit("TAIL_PADDING_NAMESPACE");
    lemma_base64_len(bytes);
    if reserved.label() == base64_encoding(bytes) {
        match reserved {
            Reserved::PayForBlob => {
                lemma_base64_characters(bytes, 3);
                assert(reserved.label()[3] == '_');
            },
            Reserved::PrimaryReservedPadding => {
                lemma_base64_characters(bytes, 7);
                assert(reserved.label()[7] == '_');
            },
            _ => {},
        }
    }
}

/// Different labels belong to different reserved namespaces.
pub proof fn lemma_labels_differ(a: Reserved, b: Reserved)
    requires
        a.label() == b.label(),
    ensures
        a == b,
{
    reveal_strlit("TRANSACTION");
    reveal_strlit("PAY_FOR_BLOB");
    reveal_strlit("PRIMARY_RESERVED_PADDING");
    reveal_strlit("MIN_SECONDARY_RESERVED");
    reveal_strlit("TAIL_PADDING_NAMESPACE");
    assert(Reserved::Transaction.label().len() == 11 && Reserved::Transaction.label()[0] == 'T');
    assert(Reserved::PayForBlob.label().len() == 12);
    assert(Reserved::PrimaryReservedPadding.label().len() == 24);
    assert(Reserved::MinSecondaryReserved.label().len() == 22
        && Reserved::MinSecondaryReserved.label()[0] == 'M');
    assert(Reserved::TailPadding.label().len() == 22 && Reserved::TailPadding.label()[0] == 'T');
}

/// Namespaces with the same display identifier are the same namespace.
pub proof fn lemma_identifier_is_injective(a: Seq<u8>, b: Seq<u8>)
    requires
        identifier_of(a) == identifier_of(b),
    ensures
        a == b,
{
    lemma_base64_round_trip(a);
    lemma_base64_round_trip(b);
    match (reserved_of(a), reserved_of(b)) {
        (Some(x), Some(y)) => {
            lemma_labels_differ(x, y);
        },
        (Some(x), None) => {
            lemma_label_is_not_base64(x, b);
        },
        (None, Some(y)) => {
            lemma_label_is_not_base64(y, a);
        },
        (None, None) => {},
    }
}

/// The display identifier of a namespace, from its identifier bytes.
pub fn identifier(id: &[u8]) -> (text: String)
    requires
        base64_len(id@.len() as int) <= usize::MAX,
    ensures
        text@ == identifier_of(id@),
{
    match find_reserved(id) {
        Some(reserved) => reserved.name(),
        None => encode(id),
    }
}

} // verus!
