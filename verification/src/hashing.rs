use vstd::prelude::*;

verus! {

/// The 16-byte digest that the hash primitive derives from an input string.
/// The digest depends on the input characters alone, so it carries a name
/// here; no spec in this crate states which bytes it holds.
pub uninterp spec fn md5_of(s: Seq<char>) -> Seq<u8>;

/// Relies on md5::compute: a pure function of the input bytes whose output
/// is always exactly 16 bytes.
#[verifier::external_body]
pub(crate) fn md5_digest(input: &str) -> (r: Vec<u8>)
    ensures
        r@ == md5_of(input@),
        r@.len() == 16,
{
    md5::compute(input).0.to_vec()
}

} // verus!
