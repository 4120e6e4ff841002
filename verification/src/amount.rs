//! Amount scaling: converting a human-denominated decimal amount into the
//! smallest wire denomination. One unit is [`crate::IRON_TO_ORE`] subunits;
//! an amount is written as decimal digits with an optional fractional part
//! after one dot. Scaling is exact on the first eight fractional digits and
//! truncates — never rounds — anything beyond them. A scaled value that does
//! not fit the wire's 64-bit width is rejected, not clamped.

use vstd::prelude::*;

use crate::errors::PipelineError;
use crate::IRON_TO_ORE;

verus! {

/// Whether `c` is a decimal digit.
pub open spec fn is_dec_digit(c: char) -> bool {
    '0' <= c && c <= '9'
}

/// The value of the decimal digit `c`.
pub open spec fn digit_value(c: char) -> int
    recommends
        is_dec_digit(c),
{
    (c as u32) as int - 48
}

/// Whether every character of `s` is a decimal digit.
pub open spec fn all_digits(s: Seq<char>) -> bool {
    forall|i: int| 0 <= i < s.len() ==> is_dec_digit(#[trigger] s[i])
}

/// The number `s` spells in decimal, most significant digit first.
pub open spec fn digits_value(s: Seq<char>) -> int
    recommends
        all_digits(s),
    decreases s.len(),
{
    if s.len() == 0 {
        0int
    } else {
        digits_value(s.drop_last()) * 10 + digit_value(s.last())
    }
}

/// The position of the first dot of `s`, or `s.len()` if it has none.
pub open spec fn dot_pos(s: Seq<char>) -> int
    decreases s.len(),
{
    if s.len() == 0 {
        0int
    } else if s[0] == '.' {
        0int
    } else {
        1 + dot_pos(s.drop_first())
    }
}

/// The digits before the dot.
pub open spec fn int_part(s: Seq<char>) -> Seq<char> {
    s.take(dot_pos(s))
}

/// The digits after the dot; empty when there is no dot.
pub open spec fn frac_part(s: Seq<char>) -> Seq<char> {
    if dot_pos(s) == s.len() {
        Seq::empty()
    } else {
        s.skip(dot_pos(s) + 1)
    }
}

/// Whether `s` is a well-formed amount: a nonempty run of digits, optionally
/// followed by one dot and further digits.
pub open spec fn valid_amount(s: Seq<char>) -> bool {
    &&& int_part(s).len() >= 1
    &&& all_digits(int_part(s))
    &&& all_digits(frac_part(s))
}

/// Fractional digit `k`, taking absent trailing digits as zero.
pub open spec fn frac_digit(frac: Seq<char>, k: int) -> int {
    if 0 <= k < frac.len() {
        digit_value(frac[k])
    } else {
        0int
    }
}

/// The subunit value contributed by the first `k` fractional places: the
/// fraction read to `k` digits, padded with zeros — so digits past place `k`
/// are truncated away, never rounded.
pub open spec fn frac_val_upto(frac: Seq<char>, k: int) -> int
    decreases k,
{
    if k <= 0 {
        0int
    } else {
        frac_val_upto(frac, k - 1) * 10 + frac_digit(frac, k - 1)
    }
}

/// The subunit value of the fractional part: exactly its first eight digits.
pub open spec fn frac_subunits(frac: Seq<char>) -> int {
    frac_val_upto(frac, 8)
}

/// The subunit value a well-formed amount scales to.
pub open spec fn amount_subunits(s: Seq<char>) -> int
    recommends
        valid_amount(s),
{
    digits_value(int_part(s)) * (IRON_TO_ORE as int) + frac_subunits(frac_part(s))
}

/// Ten to the `k`.
pub open spec fn pow10(k: nat) -> int
    decreases k,
{
    if k == 0 {
        1int
    } else {
        10 * pow10((k - 1) as nat)
    }
}

proof fn lemma_dot_from_scan(s: Seq<char>, p: int)
    requires
        0 <= p <= s.len(),
        forall|k: int| 0 <= k < p ==> (#[trigger] s[k]) != '.',
        p < s.len() ==> s[p] == '.',
        p == s.len() ==> (forall|k: int| 0 <= k < s.len() ==> (#[trigger] s[k]) != '.'),
    ensures
        dot_pos(s) == p,
    decreases p,
{
    if s.len() == 0 {
    } else if s[0] == '.' {
    } else {
        lemma_dot_from_scan(s.drop_first(), p - 1);
    }
}

proof fn lemma_digits_value_nonneg(s: Seq<char>)
    requires
        all_digits(s),
    ensures
        digits_value(s) >= 0,
    decreases s.len(),
{
    if s.len() > 0 {
        assert(all_digits(s.drop_last()));
        lemma_digits_value_nonneg(s.drop_last());
    }
}

proof fn lemma_digits_value_monotone(s: Seq<char>, k: int)
    requires
        all_digits(s),
        0 <= k <= s.len(),
    ensures
        digits_value(s) >= digits_value(s.take(k)),
    decreases s.len(),
{
    if k == s.len() {
        assert(s.take(k) =~= s);
    } else {
        assert(all_digits(s.drop_last()));
        assert(s.drop_last().take(k) =~= s.take(k));
        lemma_digits_value_monotone(s.drop_last(), k);
        lemma_digits_value_nonneg(s.drop_last());
    }
}

proof fn lemma_frac_val_nonneg(frac: Seq<char>, k: int)
    requires
        all_digits(frac),
    ensures
        frac_val_upto(frac, k) >= 0,
    decreases k,
{
    if k > 0 {
        lemma_frac_val_nonneg(frac, k - 1);
    }
}

/// Parses a human-denominated amount and scales it to subunits. A
/// well-formed amount whose scaled value fits the wire width parses to
/// exactly that value; one that does not fit is rejected as
/// [`PipelineError::AmountOverflow`]; anything else — an empty integer part,
/// a second dot, a non-digit — is rejected as
/// [`PipelineError::MalformedInput`].
#[verifier::loop_isolation(false)]
pub fn parse_iron_amount(s: &str) -> (r: Result<u64, PipelineError>)
    ensures
        valid_amount(s@) && amount_subunits(s@) <= u64::MAX as int ==> (r matches Ok(v) && v
            == amount_subunits(s@)),
        valid_amount(s@) && amount_subunits(s@) > u64::MAX as int ==> r == Err::<
            u64,
            PipelineError,
        >(PipelineError::AmountOverflow),
        !valid_amount(s@) ==> r == Err::<u64, PipelineError>(PipelineError::MalformedInput),
{
    let n: usize = s.unicode_len();
    // First locate the dot, if any.
    let mut dp: usize = n;
    for i in 0..n
        invariant
            dp == n,
            forall|k: int| 0 <= k < i ==> (#[trigger] s@[k]) != '.',
    {
        if s.get_char(i) == '.' {
            dp = i;
            break ;
        }
    }
    proof {
        lemma_dot_from_scan(s@, dp as int);
        assert(int_part(s@) == s@.take(dp as int));
    }
    if dp == 0 {
        // Empty integer part: also covers the empty string.
        return Err(PipelineError::MalformedInput);
    }
    // Validate that both parts hold digits only.
    for i in 0..dp
        invariant
            forall|k: int| 0 <= k < i ==> is_dec_digit(#[trigger] s@[k]),
    {
        let code: u32 = s.get_char(i) as u32;
        if code < 48 || code > 57 {
            assert(int_part(s@)[i as int] == s@[i as int]);
            assert(!is_dec_digit(int_part(s@)[i as int]));
            return Err(PipelineError::MalformedInput);
        }
    }
    assert(all_digits(int_part(s@)));
    if dp < n {
        for i in (dp + 1)..n
            invariant
                dp < n,
                forall|k: int| dp < k < i ==> is_dec_digit(#[trigger] s@[k]),
        {
            let code: u32 = s.get_char(i) as u32;
            if code < 48 || code > 57 {
                assert(!is_dec_digit(s@[i as int]));
                assert(frac_part(s@)[i - dp - 1] == s@[i as int]);
                return Err(PipelineError::MalformedInput);
            }
        }
    }
    assert(all_digits(frac_part(s@))) by {
        assert(forall|k: int|
            0 <= k < frac_part(s@).len() ==> frac_part(s@)[k] == s@[dp + 1 + k]
                && is_dec_digit(#[trigger] s@[dp + 1 + k]));
    }
    assert(valid_amount(s@));
    let ghost ip = int_part(s@);
    let ghost fp = frac_part(s@);
    // Read the integer part, stopping as soon as it cannot fit.
    let mut int_val: u128 = 0;
    for i in 0..dp
        invariant
            int_val == digits_value(ip.take(i as int)),
            int_val <= u64::MAX as u128,
    {
        let code: u32 = s.get_char(i) as u32;
        let d: u128 = (code - 48) as u128;
        proof {
            assert(ip.take(i + 1).drop_last() =~= ip.take(i as int));
            assert(ip.take(i + 1).last() == s@[i as int]);
        }
        int_val = int_val * 10 + d;
        if int_val > u64::MAX as u128 {
            proof {
                lemma_digits_value_monotone(ip, i + 1);
                lemma_digits_value_nonneg(ip);
                assert(digits_value(ip) * (IRON_TO_ORE as int) >= digits_value(ip) * 1) by (nonlinear_arith)
                    requires
                        digits_value(ip) >= 0,
                ;
                lemma_frac_val_nonneg(fp, 8);
            }
            return Err(PipelineError::AmountOverflow);
        }
    }
    proof {
        assert(ip.take(dp as int) =~= ip);
    }
    // Read the first eight fractional digits, padding absent ones with zero.
    let mut frac_val: u64 = 0;
    let frac_len: usize = if dp < n {
        n - dp - 1
    } else {
        0
    };
    assert(pow10(8) == 100_000_000) by {
        reveal_with_fuel(pow10, 9);
    }
    for k in 0..8usize
        invariant
            frac_val == frac_val_upto(fp, k as int),
            frac_val <= pow10(k as nat) - 1,
            frac_len == fp.len(),
    {
        let d: u64 = if k < frac_len {
            let code: u32 = s.get_char(dp + 1 + k) as u32;
            assert(fp[k as int] == s@[dp + 1 + k]);
            (code - 48) as u64
        } else {
            0
        };
        assert(pow10((k + 1) as nat) == 10 * pow10(k as nat));
        assert(pow10(8 as nat) >= pow10((k + 1) as nat)) by {
            lemma_pow10_monotone((k + 1) as nat, 8 as nat);
        }
        frac_val = frac_val * 10 + d;
    }
    // Combine; the scaled value must fit the wire width.
    let total: u128 = int_val * (IRON_TO_ORE as u128) + (frac_val as u128);
    if total > u64::MAX as u128 {
        return Err(PipelineError::AmountOverflow);
    }
    Ok(total as u64)
}

/// Reads the chain tip index that the node reports as a decimal string.
/// Succeeds exactly on a nonempty run of digits whose value fits the
/// height's 32-bit width, and returns exactly that value.
#[verifier::loop_isolation(false)]
pub fn parse_chain_height(s: &str) -> (r: Option<u32>)
    ensures
        r is Some <==> s@.len() >= 1 && all_digits(s@) && digits_value(s@) <= u32::MAX as int,
        r matches Some(v) ==> v == digits_value(s@),
{
    let n: usize = s.unicode_len();
    if n == 0 {
        return None;
    }
    let mut value: u64 = 0;
    for i in 0..n
        invariant
            forall|k: int| 0 <= k < i ==> is_dec_digit(#[trigger] s@[k]),
            value == digits_value(s@.take(i as int)),
            value <= u32::MAX as u64,
    {
        let code: u32 = s.get_char(i) as u32;
        if code < 48 || code > 57 {
            assert(!is_dec_digit(s@[i as int]));
            return None;
        }
        proof {
            assert(s@.take(i + 1).drop_last() =~= s@.take(i as int));
            assert(s@.take(i + 1).last() == s@[i as int]);
        }
        value = value * 10 + ((code - 48) as u64);
        if value > u32::MAX as u64 {
            proof {
                if all_digits(s@) {
                    lemma_digits_value_monotone(s@, i + 1);
                }
            }
            return None;
        }
    }
    proof {
        assert(s@.take(n as int) =~= s@);
    }
    Some(value as u32)
}

proof fn lemma_pow10_monotone(a: nat, b: nat)
    requires
        a <= b,
    ensures
        pow10(a) <= pow10(b),
        pow10(a) >= 1,
    decreases b,
{
    if a == b {
        if a > 0 {
            lemma_pow10_monotone((a - 1) as nat, (b - 1) as nat);
        }
    } else {
        lemma_pow10_monotone(a, (b - 1) as nat);
    }
}

/// Law: scaling is exact for integral amounts — an amount with no
/// fractional part scales to its integer value times the unit scale, with
/// nothing added and nothing lost.
pub proof fn lemma_integral_amount_exact(s: Seq<char>)
    requires
        valid_amount(s),
        dot_pos(s) == s.len(),
    ensures
        amount_subunits(s) == digits_value(s) * (IRON_TO_ORE as int),
{
    assert(int_part(s) =~= s);
    assert(frac_part(s).len() == 0);
    lemma_frac_val_zero(frac_part(s), 8);
}

proof fn lemma_frac_val_zero(frac: Seq<char>, k: int)
    requires
        frac.len() == 0,
    ensures
        frac_val_upto(frac, k) == 0,
    decreases k,
{
    if k > 0 {
        lemma_frac_val_zero(frac, k - 1);
    }
}

/// Law: scaling truncates. Two well-formed amounts with the same integer
/// part and the same first eight fractional digits scale to the same
/// subunit value — digits beyond the eighth fractional place never move the
/// result.
pub proof fn lemma_fractional_truncation(s1: Seq<char>, s2: Seq<char>)
    requires
        valid_amount(s1),
        valid_amount(s2),
        int_part(s1) == int_part(s2),
        forall|k: int| 0 <= k < 8 ==> frac_digit(frac_part(s1), k) == frac_digit(frac_part(s2), k),
    ensures
        amount_subunits(s1) == amount_subunits(s2),
{
    lemma_frac_val_agree(frac_part(s1), frac_part(s2), 8);
}

proof fn lemma_frac_val_agree(f1: Seq<char>, f2: Seq<char>, k: int)
    requires
        forall|m: int| 0 <= m < k ==> frac_digit(f1, m) == frac_digit(f2, m),
    ensures
        frac_val_upto(f1, k) == frac_val_upto(f2, k),
    decreases k,
{
    if k > 0 {
        lemma_frac_val_agree(f1, f2, k - 1);
    }
}

} // verus!
