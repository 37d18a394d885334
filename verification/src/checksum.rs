//! The checksum engine: the weighted modulo-11 rule that produces the two
//! check digits of an identifier from its nine base digits.

use vstd::prelude::*;

verus! {

/// A well-formed base: exactly nine digits, each in `0..=9`.
pub open spec fn valid_base(s: Seq<u8>) -> bool {
    s.len() == 9 && (forall|i: int| 0 <= i < s.len() ==> s[i] < 10)
}

/// The weighted sum of a digit sequence: the element at index `i` weighs
/// `10 - i`, so a nine-element sequence is weighted `10, 9, ..., 2`.
pub open spec fn weighted_sum(s: Seq<u8>) -> int
    decreases s.len(),
{
    if s.len() == 0 {
        0
    } else {
        weighted_sum(s.drop_last()) + s.last() * (11 - s.len())
    }
}

/// The check digit of a nine-digit sequence: the weighted sum is reduced
/// modulo 11; a remainder below 2 gives 0, any other remainder `r` gives
/// `11 - r`.
pub open spec fn check_digit(s: Seq<u8>) -> int {
    let r = weighted_sum(s) % 11;
    if r < 2 {
        0
    } else {
        11 - r
    }
}

/// The derived sequence from which the second check digit is computed: the
/// base with its first digit dropped and the first check digit appended.
pub open spec fn shifted_base(s: Seq<u8>, first: u8) -> Seq<u8> {
    s.drop_first().push(first)
}

/// The first check digit of a base.
pub open spec fn first_check_digit(base: Seq<u8>) -> u8 {
    check_digit(base) as u8
}

/// The second check digit of a base.
pub open spec fn second_check_digit(base: Seq<u8>) -> u8 {
    check_digit(shifted_base(base, first_check_digit(base))) as u8
}

/// The full eleven digits of the identifier derived from a base.
pub open spec fn full_digits(base: Seq<u8>) -> Seq<u8> {
    base.push(first_check_digit(base)).push(second_check_digit(base))
}

/// On sequences of at most ten elements every weight is positive, so the
/// weighted sum is never negative.
pub proof fn lemma_weighted_sum_nonneg(s: Seq<u8>)
    requires
        s.len() <= 10,
    ensures
        weighted_sum(s) >= 0,
    decreases s.len(),
{
    if s.len() > 0 {
        lemma_weighted_sum_nonneg(s.drop_last());
    }
}

/// A check digit of a sequence of at most ten elements is itself a digit.
pub proof fn lemma_check_digit_range(s: Seq<u8>)
    requires
        s.len() <= 10,
    ensures
        0 <= check_digit(s) < 10,
{
    lemma_weighted_sum_nonneg(s);
}

/// The full eleven digits of a valid base are all digits, and the base is
/// kept unchanged in front.
pub proof fn lemma_full_digits_valid(base: Seq<u8>)
    requires
        valid_base(base),
    ensures
        full_digits(base).len() == 11,
        forall|i: int| 0 <= i < 11 ==> full_digits(base)[i] < 10,
        forall|i: int| 0 <= i < 9 ==> full_digits(base)[i] == base[i],
{
    lemma_check_digit_range(base);
    lemma_check_digit_range(shifted_base(base, first_check_digit(base)));
}

/// Computes the check digit of a nine-digit sequence by the weighted
/// modulo-11 rule.
pub fn compute_check_digit(seed: &[u8; 9]) -> (d: u8)
    ensures
        d == check_digit(seed@),
        d < 10,
{
    let mut sum: u64 = 0;
    let mut i: usize = 0;
    while i < 9
        invariant
            i <= 9,
            sum == weighted_sum(seed@.take(i as int)),
            sum <= 2550 * i,
        decreases 9 - i,
    {
        assert(seed@.take(i + 1).drop_last() =~= seed@.take(i as int));
        assert(seed@.take(i + 1).last() == seed@[i as int]);
        let d: u64 = seed[i] as u64;
        let w: u64 = 10 - i as u64;
        assert(d * w <= 2550) by (nonlinear_arith)
            requires
                d <= 255,
                w <= 10,
        ;
        sum = sum + d * w;
        i = i + 1;
    }
    assert(seed@.take(9) =~= seed@);
    proof {
        lemma_weighted_sum_nonneg(seed@);
    }
    let r = sum % 11;
    if r < 2 {
        0
    } else {
        (11 - r) as u8
    }
}

/// Computes both check digits of a base in one call: the first from the base
/// itself, the second from the shifted sequence.
pub fn compute_check_digits(seed: &[u8; 9]) -> (r: (u8, u8))
    ensures
        r.0 == first_check_digit(seed@),
        r.1 == second_check_digit(seed@),
        r.0 < 10,
        r.1 < 10,
{
    let first = compute_check_digit(seed);
    let mut shifted: [u8; 9] = [0; 9];
    let mut j: usize = 0;
    while j < 8
        invariant
            j <= 8,
            first == first_check_digit(seed@),
            forall|k: int| 0 <= k < j ==> shifted@[k] == seed@[k + 1],
        decreases 8 - j,
    {
        shifted[j] = seed[j + 1];
        j = j + 1;
    }
    shifted[8] = first;
    assert(shifted@ =~= shifted_base(seed@, first));
    let second = compute_check_digit(&shifted);
    (first, second)
}

} // verus!
