//! Raw shares and the namespace each one carries.

use vstd::prelude::*;

verus! {

/// Number of bytes in every raw share.
pub const SHARE_SIZE: usize = 512;

/// Number of bytes of a namespace inside a raw share: one version byte
/// followed by the identifier.
pub const NAMESPACE_SIZE: usize = 29;

/// A raw share is well formed when it has the fixed share size and starts with
/// a namespace of a supported version: version 0, whose identifier begins
/// with eighteen zero bytes, or version 255, whose identifier begins with
/// twenty-seven bytes of 255.
pub open spec fn is_well_formed_share(raw: Seq<u8>) -> bool {
    &&& raw.len() == SHARE_SIZE
    &&& {
        ||| raw[0] == 0 && forall|k: int| 1 <= k < 19 ==> raw[k] == 0
        ||| raw[0] == 255 && forall|k: int| 1 <= k < 28 ==> raw[k] == 255
    }
}

/// The namespace identifier that a raw share carries: the bytes after the
/// version byte, up to the end of the namespace.
pub open spec fn namespace_id_of(raw: Seq<u8>) -> Seq<u8>
    recommends
        raw.len() >= NAMESPACE_SIZE,
{
    raw.subrange(1, NAMESPACE_SIZE as int)
}

/// A decoded share, reduced to what classification reads: the identifier
/// bytes of its namespace.
#[derive(Debug, PartialEq, Eq)]
pub struct Share {
    pub namespace: Vec<u8>,
}

impl View for Share {
    type V = Seq<u8>;

    open spec fn view(&self) -> Seq<u8> {
        self.namespace@
    }
}

/// `celestia_types::Error`, the error of the outside decoder. Nothing is
/// known of a value of it here; the library only learns that there was one.
#[verifier::external_type_specification]
#[verifier::external_body]
pub struct ExShareError(celestia_types::Error);

/// Calls `celestia_types::Share::from_raw` and keeps the identifier of the
/// decoded share's namespace. Trusted: decoding succeeds exactly on
/// well-formed raw shares, and the namespace it reports is the one stored
/// at the front of the raw bytes.
#[verifier::external_body]
fn decode_raw(raw: &[u8]) -> (r: Result<Share, celestia_types::Error>)
    ensures
        r is Ok <==> is_well_formed_share(raw@),
        r matches Ok(share) ==> share@ == namespace_id_of(raw@),
{
    match celestia_types::Share::from_raw(raw) {
        Ok(decoded) => Ok(Share { namespace: decoded.namespace().id().to_vec() }),
        Err(e) => Err(e),
    }
}

impl Share {
    /// Decodes a raw share, or returns `None` when it is not well formed.
    pub fn from_raw(raw: &[u8]) -> (r: Option<Share>)
        ensures
            r is Some <==> is_well_formed_share(raw@),
            r matches Some(share) ==> share@ == namespace_id_of(raw@),
    {
        match decode_raw(raw) {
            Ok(share) => Some(share),
            Err(_) => None,
        }
    }
}

/// Decoding reads the size of a raw share and the namespace at its front,
/// nothing of what follows: raw shares that agree in both decode alike.
pub proof fn lemma_decoding_reads_namespace_only(a: Seq<u8>, b: Seq<u8>)
    requires
        a.len() == b.len(),
        a.len() >= NAMESPACE_SIZE ==> a.subrange(0, NAMESPACE_SIZE as int) == b.subrange(
            0,
            NAMESPACE_SIZE as int,
        ),
    ensures
        is_well_formed_share(a) == is_well_formed_share(b),
        is_well_formed_share(a) ==> namespace_id_of(a) == namespace_id_of(b),
{
    if a.len() >= NAMESPACE_SIZE {
        let front_a = a.subrange(0, NAMESPACE_SIZE as int);
        let front_b = b.subrange(0, NAMESPACE_SIZE as int);
        assert forall|k: int| 0 <= k < NAMESPACE_SIZE implies a[k] == b[k] by {
            assert(front_a[k] == a[k]);
            assert(front_b[k] == b[k]);
        }
        assert(namespace_id_of(a) =~= namespace_id_of(b));
    }
}

} // verus!
