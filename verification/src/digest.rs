//! The digest two runs of a movie are compared by: FNV-1a over bytes.
use vstd::prelude::*;
use vstd::arithmetic::div_mod::{
    lemma_mod_multiples_vanish, lemma_mul_mod_noop_left, lemma_small_mod,
};

verus! {

/// Where the digest of no bytes stands: the 64-bit offset basis of FNV-1a.
pub const DIGEST_START: u64 = 14695981039346656037;

/// What each step multiplies by.
pub const DIGEST_PRIME: u64 = 1099511628211;

/// One byte folded into a digest.
pub open spec fn digest_byte(h: u64, b: u8) -> u64 {
    (((h ^ (b as u64)) * DIGEST_PRIME) % 0x1_0000_0000_0000_0000) as u64
}

/// The digest `h` carried on over `bytes`.
pub open spec fn digest_from(h: u64, bytes: Seq<u8>) -> u64
    decreases bytes.len(),
{
    if bytes.len() == 0 {
        h
    } else {
        digest_byte(digest_from(h, bytes.drop_last()), bytes.last())
    }
}

/// The digest of a whole run's bytes.
pub open spec fn digest_of(bytes: Seq<u8>) -> u64 {
    digest_from(DIGEST_START, bytes)
}

/// FNV-1a over `bytes`, carried on from `h`.
pub fn digest_more(h: u64, bytes: &[u8]) -> (r: u64)
    ensures
        r == digest_from(h, bytes@),
{
    let mut r: u64 = h;
    for i in 0..bytes.len()
        invariant
            r == digest_from(h, bytes@.take(i as int)),
    {
        let x: u64 = r ^ (bytes[i] as u64);
        assert(bytes@.take(i + 1).drop_last() =~= bytes@.take(i as int));
        r = x.wrapping_mul(DIGEST_PRIME);
    }
    assert(bytes@.take(bytes@.len() as int) =~= bytes@);
    r
}

/// FNV-1a over `bytes`: the one number two runs must agree on.
pub fn digest(bytes: &[u8]) -> (r: u64)
    ensures
        r == digest_of(bytes@),
{
    digest_more(DIGEST_START, bytes)
}

/// A digest can be taken in parts: carrying it on over a second run of bytes
/// gives the digest of both together.
pub proof fn digest_of_parts(h: u64, a: Seq<u8>, b: Seq<u8>)
    ensures
        digest_from(h, a + b) == digest_from(digest_from(h, a), b),
    decreases b.len(),
{
    if b.len() == 0 {
        assert(a + b =~= a);
    } else {
        assert((a + b).drop_last() =~= a + b.drop_last());
        assert((a + b).last() == b.last());
        digest_of_parts(h, a, b.drop_last());
    }
}

/// No bytes leave a digest where it was.
pub proof fn nothing_folds_to_itself(h: u64)
    ensures
        digest_from(h, Seq::<u8>::empty()) == h,
{
}

/// A byte is folded in with all of its eight bits, whatever it is: the digest
/// and the byte are combined bit by bit and multiplied by the 64-bit FNV prime,
/// modulo two to the sixty-fourth.
pub proof fn a_byte_is_folded_in_whole(h: u64, b: u8)
    ensures
        digest_from(h, seq![b]) == ((h ^ (b as u64)) * 1099511628211) % 0x1_0000_0000_0000_0000,
{
    assert(seq![b].drop_last() =~= Seq::<u8>::empty());
    assert(digest_from(h, seq![b].drop_last()) == h);
}

/// A trace is digested from the 64-bit offset basis of FNV-1a on.
pub proof fn a_digest_starts_at_the_basis(bytes: Seq<u8>)
    ensures
        digest_of(bytes) == digest_from(14695981039346656037, bytes),
{
}

proof fn the_step_is_one_to_one(x: u64, y: u64)
    requires
        (x * 1099511628211) % 0x1_0000_0000_0000_0000 == (y * 1099511628211)
            % 0x1_0000_0000_0000_0000,
    ensures
        x == y,
{
    undone(x);
    undone(y);
}

proof fn undone(x: u64)
    ensures
        ((x * 1099511628211) % 0x1_0000_0000_0000_0000 * 14886173955864302971) % 0x1_0000_0000_0000_0000 == x,
{
    let m: int = 0x1_0000_0000_0000_0000;
    let q: int = 14886173955864302971;
    lemma_mul_mod_noop_left(x * 1099511628211, q, m);
    assert(x * 1099511628211 * q == m * (x * 887285111055) + x) by (nonlinear_arith)
        requires
            q == 14886173955864302971,
            m == 0x1_0000_0000_0000_0000,
    ;
    lemma_mod_multiples_vanish(x * 887285111055, x as int, m);
    lemma_small_mod(x as nat, m as nat);
}

/// Two digests that differ still differ after the same bytes.
pub proof fn a_difference_is_never_lost(h: u64, k: u64, bytes: Seq<u8>)
    requires
        h != k,
    ensures
        digest_from(h, bytes) != digest_from(k, bytes),
    decreases bytes.len(),
{
    if bytes.len() > 0 {
        let x = digest_from(h, bytes.drop_last());
        let y = digest_from(k, bytes.drop_last());
        a_difference_is_never_lost(h, k, bytes.drop_last());
        let b = bytes.last() as u64;
        assert(x != y ==> x ^ b != y ^ b) by (bit_vector);
        if digest_from(h, bytes) == digest_from(k, bytes) {
            the_step_is_one_to_one(x ^ b, y ^ b);
        }
    }
}

/// One step tells all bytes apart.
pub proof fn no_two_bytes_fold_alike(h: u64, a: u8, b: u8)
    requires
        a != b,
    ensures
        digest_from(h, seq![a]) != digest_from(h, seq![b]),
{
    a_byte_is_folded_in_whole(h, a);
    a_byte_is_folded_in_whole(h, b);
    assert(a != b ==> h ^ (a as u64) != h ^ (b as u64)) by (bit_vector);
    if digest_from(h, seq![a]) == digest_from(h, seq![b]) {
        the_step_is_one_to_one(h ^ (a as u64), h ^ (b as u64));
    }
}

/// Two runs whose traces differ in one byte, wherever it stands and whatever its
/// two values are, have different digests.
pub proof fn one_wrong_byte_shows(before: Seq<u8>, a: u8, b: u8, after: Seq<u8>)
    requires
        a != b,
    ensures
        digest_of(before + seq![a] + after) != digest_of(before + seq![b] + after),
{
    let h = digest_of(before);
    digest_of_parts(DIGEST_START, before, seq![a]);
    digest_of_parts(DIGEST_START, before, seq![b]);
    digest_of_parts(DIGEST_START, before + seq![a], after);
    digest_of_parts(DIGEST_START, before + seq![b], after);
    no_two_bytes_fold_alike(h, a, b);
    a_difference_is_never_lost(digest_from(h, seq![a]), digest_from(h, seq![b]), after);
}

} // verus!
