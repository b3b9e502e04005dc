//! Content identifiers derived from a note's field values.

use crate::text::{append_dec_u64, dec_of};
use vstd::prelude::*;

verus! {

/// The hash of a string's characters. Within one process the same characters
/// always give the same hash.
pub uninterp spec fn spec_str_hash(s: Seq<char>) -> u64;

/// Hashes one string.
///
/// Relies on std's `DefaultHasher`: hashers created with `new` use the same
/// fixed keys, so the finished hash is a function of the hashed characters
/// alone.
#[verifier::external_body]
fn hash_str(s: &String) -> (r: u64)
    ensures
        r == spec_str_hash(s@),
{
    let mut h = std::collections::hash_map::DefaultHasher::new();
    std::hash::Hash::hash(s, &mut h);
    std::hash::Hasher::finish(&h)
}

/// The content identifier of a sequence of field values: the decimal hash of
/// each field, concatenated in field order.
pub open spec fn spec_guid(fields: Seq<Seq<char>>) -> Seq<char>
    decreases fields.len(),
{
    if fields.len() == 0 {
        Seq::empty()
    } else {
        spec_guid(fields.drop_last()) + dec_of(spec_str_hash(fields.last()) as nat)
    }
}

/// Derives a note's content identifier from its field values.
pub fn guid_for(fields: &Vec<String>) -> (r: String)
    ensures
        r@ == spec_guid(fields.deep_view()),
{
    let ghost dv = fields.deep_view();
    let mut out = String::new();
    let mut i: usize = 0;
    while i < fields.len()
        invariant
            dv == fields.deep_view(),
            0 <= i <= dv.len(),
            out@ == spec_guid(dv.subrange(0, i as int)),
        decreases dv.len() - i,
    {
        let h = hash_str(&fields[i]);
        append_dec_u64(&mut out, h);
        proof {
            assert(dv.subrange(0, i + 1).drop_last() =~= dv.subrange(0, i as int));
            assert(dv.subrange(0, i + 1).last() == dv[i as int]);
        }
        i += 1;
    }
    proof {
        assert(dv.subrange(0, dv.len() as int) =~= dv);
    }
    out
}

} // verus!
