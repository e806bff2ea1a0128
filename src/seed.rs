//! Seed derivation: a cheap, stable fold over the leading characters of an
//! identifier. It is not meant to be collision resistant.
use vstd::prelude::*;
use vstd::string::StrSliceExecFns;

verus! {

/// How many leading characters of an identifier take part in its seed.
pub const SEED_PREFIX_LEN: usize = 10;

/// Sum of the scalar values of the characters of `s`, without wrapping.
pub open spec fn char_sum(s: Seq<char>) -> int
    decreases s.len(),
{
    if s.len() == 0 {
        0
    } else {
        char_sum(s.drop_last()) + (s.last() as u32)
    }
}

/// The characters that decide the seed: at most the first ten.
pub open spec fn seed_prefix(s: Seq<char>) -> Seq<char> {
    if s.len() <= SEED_PREFIX_LEN {
        s
    } else {
        s.take(SEED_PREFIX_LEN as int)
    }
}

/// The seed of an identifier: the wrapping `u32` sum of its first ten scalar values.
pub open spec fn seed_of(s: Seq<char>) -> u32 {
    (char_sum(seed_prefix(s)) % 0x1_0000_0000) as u32
}

/// Derives the seed of `string`; the empty string gives 0.
pub fn get_seed(string: &str) -> (r: u32)
    ensures
        r == seed_of(string@),
{
    let len = string.unicode_len();
    let limit: usize = if len < SEED_PREFIX_LEN {
        len
    } else {
        SEED_PREFIX_LEN
    };
    let ghost prefix = seed_prefix(string@);
    assert(prefix.len() == limit);
    let mut seed: u32 = 0;
    for i in 0..limit
        invariant
            limit == prefix.len(),
            limit <= string@.len(),
            prefix == string@.take(limit as int),
            seed == char_sum(prefix.take(i as int)) % 0x1_0000_0000,
    {
        let c = string.get_char(i);
        proof {
            assert(prefix.take(i + 1).drop_last() =~= prefix.take(i as int));
            assert(prefix.take(i + 1).last() == c);
        }
        seed = seed.wrapping_add(c as u32);
    }
    assert(prefix.take(limit as int) =~= prefix);
    seed
}

/// Characters after the tenth never change the seed.
pub proof fn lemma_seed_ignores_suffix(s: Seq<char>, t: Seq<char>)
    requires
        s.len() >= SEED_PREFIX_LEN,
    ensures
        seed_of(s + t) == seed_of(s),
{
    assert(seed_prefix(s + t) =~= seed_prefix(s));
}

/// Two identifiers that agree on their first ten characters have the same seed.
pub proof fn lemma_seed_truncation(a: Seq<char>, b: Seq<char>)
    requires
        a.len() >= SEED_PREFIX_LEN,
        b.len() >= SEED_PREFIX_LEN,
        forall|i: int| 0 <= i < SEED_PREFIX_LEN ==> a[i] == b[i],
    ensures
        seed_of(a) == seed_of(b),
{
    assert(seed_prefix(a) =~= seed_prefix(b));
}

} // verus!
