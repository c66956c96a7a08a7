//! The SHA3-256 digest of a byte string and the colour read off it.

use vstd::prelude::*;

verus! {

/// The SHA3-256 digest of `data`: thirty-two bytes.
pub uninterp spec fn sha3_256(data: Seq<u8>) -> Seq<u8>;

/// A colour as red, green and blue.
pub type Rgb = (u8, u8, u8);

/// The colour that a digest stands for: its first three bytes.
pub open spec fn leading_rgb(digest: Seq<u8>) -> Rgb
    recommends
        digest.len() >= 3,
{
    (digest[0], digest[1], digest[2])
}

/// The colour of a byte string: the first three bytes of its SHA3-256
/// digest.
pub open spec fn color_of(data: Seq<u8>) -> Rgb {
    leading_rgb(sha3_256(data))
}

/// Feeds the bytes to a fresh `sha3::Sha3_256` hasher through
/// `Digest::update` and closes it with `Digest::finalize`. Trusted: the
/// array returned is the SHA3-256 digest of the bytes.
#[verifier::external_body]
fn sha3_256_digest(data: &[u8]) -> (digest: [u8; 32])
    ensures
        digest@ == sha3_256(data@),
{
    let mut hasher = <sha3::Sha3_256 as sha3::Digest>::new();
    sha3::Digest::update(&mut hasher, data);
    sha3::Digest::finalize(hasher).into()
}

/// Reads a colour off a digest.
pub fn rgb_from_digest(digest: &[u8; 32]) -> (rgb: Rgb)
    ensures
        rgb == leading_rgb(digest@),
{
    (digest[0], digest[1], digest[2])
}

/// The colour of a byte string.
pub fn color(data: &[u8]) -> (rgb: Rgb)
    ensures
        rgb == color_of(data@),
{
    let digest = sha3_256_digest(data);
    rgb_from_digest(&digest)
}

} // verus!
