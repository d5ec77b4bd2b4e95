//! Byte strings: powers of two, zero padding and concatenation

use vstd::arithmetic::power2::{lemma_pow2_pos, lemma_pow2_unfold, pow2};
use vstd::prelude::*;

verus! {

/// The smallest power of two that is at least `n`; `1` for `n == 0`.
pub open spec fn spec_next_power_of_two(n: nat) -> nat
    decreases n,
{
    if n <= 1 {
        1
    } else {
        2 * spec_next_power_of_two((n + 1) / 2)
    }
}

/// `r` is a power of two.
pub open spec fn is_power_of_two(r: nat) -> bool {
    exists|e: nat| r == pow2(e)
}

/// `spec_next_power_of_two(n)` is a power of two, is at least `n`, and no
/// smaller power of two is: its half lies below `n`.
pub proof fn lemma_next_power_of_two(n: nat)
    ensures
        is_power_of_two(spec_next_power_of_two(n)),
        n <= spec_next_power_of_two(n),
        1 <= spec_next_power_of_two(n),
        n > 1 ==> spec_next_power_of_two(n) < 2 * n,
    decreases n,
{
    if n <= 1 {
        assert(pow2(0) == 1) by {
            reveal(pow2);
            reveal(vstd::arithmetic::power::pow);
        }
        assert(spec_next_power_of_two(n) == pow2(0));
    } else {
        let h = (n + 1) / 2;
        lemma_next_power_of_two(h);
        let e = choose|e: nat| spec_next_power_of_two(h) == pow2(e);
        lemma_pow2_unfold(e + 1);
        assert(spec_next_power_of_two(n) == pow2(e + 1));
    }
}

/// No power of two that is at least `n` lies below `spec_next_power_of_two(n)`.
pub proof fn lemma_next_power_of_two_least(n: nat, e: nat)
    requires
        n <= pow2(e),
    ensures
        spec_next_power_of_two(n) <= pow2(e),
    decreases n,
{
    lemma_pow2_pos(e);
    if n > 1 {
        assert(e > 0) by {
            if e == 0 {
                reveal(pow2);
                reveal(vstd::arithmetic::power::pow);
            }
        }
        lemma_pow2_unfold(e);
        lemma_next_power_of_two_least((n + 1) / 2, (e - 1) as nat);
    }
}

/// A power of two is its own next power of two.
pub proof fn lemma_next_power_of_two_fixed(e: nat)
    ensures
        spec_next_power_of_two(pow2(e)) == pow2(e),
    decreases e,
{
    if e == 0 {
        assert(pow2(0) == 1) by {
            reveal(pow2);
            reveal(vstd::arithmetic::power::pow);
        }
    } else {
        lemma_pow2_unfold(e);
        lemma_next_power_of_two_fixed((e - 1) as nat);
        lemma_pow2_pos((e - 1) as nat);
        let q = pow2((e - 1) as nat);
        assert((2 * q + 1) / 2 == q);
    }
}

/// The smallest power of two greater than or equal to `n`.
pub fn next_power_of_two(n: usize) -> (r: usize)
    requires
        spec_next_power_of_two(n as nat) <= usize::MAX,
    ensures
        r == spec_next_power_of_two(n as nat),
{
    let mut r: usize = 1;
    let mut m: usize = n;
    while m > 1
        invariant
            r >= 1,
            r * spec_next_power_of_two(m as nat) == spec_next_power_of_two(n as nat),
            spec_next_power_of_two(n as nat) <= usize::MAX,
        decreases m,
    {
        proof {
            let h = ((m + 1) / 2) as nat;
            lemma_next_power_of_two(h);
            assert(spec_next_power_of_two(m as nat) == 2 * spec_next_power_of_two(h));
            assert(r * (2 * spec_next_power_of_two(h)) == (2 * r) * spec_next_power_of_two(h))
                by (nonlinear_arith);
            assert(2 * r <= (2 * r) * spec_next_power_of_two(h)) by (nonlinear_arith)
                requires
                    spec_next_power_of_two(h) >= 1,
            ;
        }
        r = 2 * r;
        m = m / 2 + m % 2;
    }
    assert(r * spec_next_power_of_two(m as nat) == r) by (nonlinear_arith)
        requires
            spec_next_power_of_two(m as nat) == 1,
    ;
    r
}

/// `n` zero bytes.
pub open spec fn zeros(n: nat) -> Seq<u8> {
    Seq::new(n, |i: int| 0u8)
}

/// `s` with zero bytes in front that bring it to `len` bytes; `s` itself
/// where it is that long already.
pub open spec fn pad_left(s: Seq<u8>, len: nat) -> Seq<u8> {
    zeros((len - s.len()) as nat) + s
}

/// The length to which two byte strings are padded before they are joined:
/// each length is rounded up to a power of two, and the larger one is taken.
pub open spec fn padded_len(len1: nat, len2: nat) -> nat {
    if spec_next_power_of_two(len1) >= spec_next_power_of_two(len2) {
        spec_next_power_of_two(len1)
    } else {
        spec_next_power_of_two(len2)
    }
}

/// Two byte strings, each padded in front to `padded_len` of their lengths,
/// one after the other.
pub open spec fn join_padded(part1: Seq<u8>, part2: Seq<u8>) -> Seq<u8> {
    let len = padded_len(part1.len(), part2.len());
    pad_left(part1, len) + pad_left(part2, len)
}

/// The byte strings of `parts`, one after the other.
pub open spec fn spec_concatenate(parts: Seq<&[u8]>) -> Seq<u8> {
    parts.flat_map(|part: &[u8]| part@)
}

/// Both halves of a joined pair have the padded length, the first holds the
/// first part and the second the second.
pub proof fn lemma_join_padded_halves(part1: Seq<u8>, part2: Seq<u8>)
    ensures
        join_padded(part1, part2).len() == 2 * padded_len(part1.len(), part2.len()),
        part1.len() <= padded_len(part1.len(), part2.len()),
        part2.len() <= padded_len(part1.len(), part2.len()),
        join_padded(part1, part2).subrange(0, padded_len(part1.len(), part2.len()) as int)
            == pad_left(part1, padded_len(part1.len(), part2.len())),
        join_padded(part1, part2).subrange(
            padded_len(part1.len(), part2.len()) as int,
            join_padded(part1, part2).len() as int,
        ) == pad_left(part2, padded_len(part1.len(), part2.len())),
{
    let len = padded_len(part1.len(), part2.len());
    lemma_next_power_of_two(part1.len());
    lemma_next_power_of_two(part2.len());
    let joined = join_padded(part1, part2);
    assert(pad_left(part1, len).len() == len);
    assert(pad_left(part2, len).len() == len);
    assert(joined.subrange(0, len as int) =~= pad_left(part1, len));
    assert(joined.subrange(len as int, joined.len() as int) =~= pad_left(part2, len));
}

/// Concatenates the byte strings in the order given.
pub fn concatenate(parts: &[&[u8]]) -> (r: Vec<u8>)
    ensures
        r@ == spec_concatenate(parts@),
{
    let mut r: Vec<u8> = Vec::new();
    let mut i: usize = 0;
    while i < parts.len()
        invariant
            i <= parts.len(),
            r@ == spec_concatenate(parts@.take(i as int)),
        decreases parts.len() - i,
    {
        let part: &[u8] = parts[i];
        let ghost before = r@;
        let mut j: usize = 0;
        while j < part.len()
            invariant
                j <= part.len(),
                r@ == before + part@.take(j as int),
            decreases part.len() - j,
        {
            r.push(part[j]);
            j = j + 1;
            assert(r@ =~= before + part@.take(j as int));
        }
        proof {
            assert(part@.take(part.len() as int) =~= part@);
            parts@.lemma_flat_map_take_append(|p: &[u8]| p@, i as int);
        }
        i = i + 1;
    }
    proof {
        assert(parts@.take(parts.len() as int) =~= parts@);
    }
    r
}

/// Pads each of the two byte strings in front with zero bytes, up to the
/// larger of the powers of two that their lengths round up to, and joins
/// them.
pub fn pad_and_join(part1: &[u8], part2: &[u8]) -> (r: Vec<u8>)
    requires
        2 * padded_len(part1@.len(), part2@.len()) <= usize::MAX,
    ensures
        r@ == join_padded(part1@, part2@),
{
    proof {
        lemma_next_power_of_two(part1@.len());
        lemma_next_power_of_two(part2@.len());
    }
    // Left padding to the nearest power of 2
    let p21 = next_power_of_two(part1.len());
    let p22 = next_power_of_two(part2.len());
    let len = if p21 >= p22 { p21 } else { p22 };

    let missing1 = len - part1.len();
    let missing2 = len - part2.len();
    let pad1 = vec![0u8; missing1];
    let pad2 = vec![0u8; missing2];

    let parts: [&[u8]; 4] = [pad1.as_slice(), part1, pad2.as_slice(), part2];
    let r = concatenate(parts.as_slice());
    proof {
        assert(pad1@ =~= zeros((len - part1.len()) as nat));
        assert(pad2@ =~= zeros((len - part2.len()) as nat));
        let f = |p: &[u8]| p@;
        let s = parts@;
        reveal_with_fuel(Seq::flatten, 5);
        assert(s.map_values(f) =~= seq![pad1@, part1@, pad2@, part2@]);
        assert(spec_concatenate(s) =~= pad1@ + part1@ + pad2@ + part2@);
        assert(r@ =~= join_padded(part1@, part2@));
    }
    r
}

} // verus!
