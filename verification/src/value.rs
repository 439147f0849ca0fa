use vstd::prelude::*;

use vstd::slice::slice_index_get;

verus! {

/// Upper bound (exclusive) on a value magnitude in billionths: values with
/// up to eighteen integer digits are representable.
pub const MAG_LIMIT: u128 = 1_000_000_000_000_000_000_000_000_000;

/// Upper bound (exclusive) on the integer part of a parsed value.
pub const INT_LIMIT: u128 = 1_000_000_000_000_000_000;

/// A signed decimal value in fixed point: `mag_nanos` is the magnitude in
/// billionths of a unit, so the value carries nine fractional digits of
/// precision. Stands in for the numeric reading of one input line.
#[derive(Clone, Copy, Debug, PartialEq, Eq, Structural)]
pub struct Value {
    pub negative: bool,
    pub mag_nanos: u128,
}

impl Value {
    /// The magnitude is in range and zero is never marked negative.
    pub open spec fn wf(self) -> bool {
        &&& self.mag_nanos < MAG_LIMIT
        &&& self.mag_nanos == 0 ==> !self.negative
    }

    /// The value in billionths of a unit, as a signed integer.
    pub open spec fn val(self) -> int {
        if self.negative {
            -(self.mag_nanos as int)
        } else {
            self.mag_nanos as int
        }
    }
}

/// Whether `b` is an ASCII decimal digit.
pub open spec fn is_digit(b: u8) -> bool {
    48 <= b <= 57
}

/// The numeric value of the ASCII digit `b`.
pub open spec fn digit_val(b: u8) -> nat {
    (b - 48) as nat
}

/// Whether every byte of `s` is an ASCII decimal digit.
pub open spec fn all_digits(s: Seq<u8>) -> bool {
    forall|i: int| 0 <= i < s.len() ==> is_digit(#[trigger] s[i])
}

/// The number written by the digit bytes `s`, most significant first; an
/// empty sequence writes zero.
pub open spec fn digits_val(s: Seq<u8>) -> nat
    decreases s.len(),
{
    if s.len() == 0 {
        0
    } else {
        digits_val(s.drop_last()) * 10 + digit_val(s.last())
    }
}

/// Ten to the `k`.
pub open spec fn pow10(k: nat) -> nat
    decreases k,
{
    if k == 0 {
        1
    } else {
        10 * pow10((k - 1) as nat)
    }
}

/// The index of the first `.` in `s`, or `s.len()` if there is none.
pub open spec fn find_dot(s: Seq<u8>) -> int
    decreases s.len(),
{
    if s.len() == 0 {
        0
    } else if s[0] == 46 {
        0
    } else {
        1 + find_dot(s.drop_first())
    }
}

/// `find_dot` points at the first dot: it stays within the sequence, a dot
/// stands there when it is not the end, and no dot stands before it.
pub proof fn lemma_find_dot(s: Seq<u8>)
    ensures
        0 <= find_dot(s) <= s.len(),
        find_dot(s) < s.len() ==> s[find_dot(s)] == 46,
        forall|i: int| 0 <= i < find_dot(s) ==> s[i] != 46,
    decreases s.len(),
{
    if s.len() != 0 && s[0] != 46 {
        lemma_find_dot(s.drop_first());
        let p = find_dot(s);
        assert forall|i: int| 0 <= i < p implies s[i] != 46 by {
            if i > 0 {
                assert(s.drop_first()[i - 1] == s[i]);
            }
        }
        if p < s.len() {
            assert(s.drop_first()[p - 1] == s[p]);
        }
    }
}

/// A number of `n` digits is below ten to the `n`.
pub proof fn lemma_digits_val_bound(s: Seq<u8>)
    requires
        all_digits(s),
    ensures
        digits_val(s) < pow10(s.len() as nat),
    decreases s.len(),
{
    if s.len() > 0 {
        assert(is_digit(s[s.len() - 1]));
        lemma_digits_val_bound(s.drop_last());
    }
}

/// `pow10` grows with its exponent.
pub proof fn lemma_pow10_increases(a: nat, b: nat)
    requires
        a <= b,
    ensures
        pow10(a) <= pow10(b),
    decreases b,
{
    if a < b {
        lemma_pow10_increases(a, (b - 1) as nat);
        assert(pow10((b - 1) as nat) <= 10 * pow10((b - 1) as nat));
    }
}

/// Ten to the `a` times ten to the `b` is ten to the `a + b`.
pub proof fn lemma_pow10_split(a: nat, b: nat)
    ensures
        pow10(a) * pow10(b) == pow10((a + b) as nat),
    decreases a,
{
    if a == 0 {
        assert(pow10(a) == 1);
        assert(pow10(a) * pow10(b) == pow10((a + b) as nat));
    } else {
        let am1 = (a - 1) as nat;
        lemma_pow10_split(am1, b);
        vstd::arithmetic::mul::lemma_mul_is_associative(10, pow10(am1) as int, pow10(b) as int);
        assert(pow10(a) == 10 * pow10(am1));
        assert(pow10(a) * pow10(b) == (10 * pow10(am1)) * pow10(b));
        assert((10 * pow10(am1)) * pow10(b) == 10 * (pow10(am1) * pow10(b)));
        assert(pow10(am1) * pow10(b) == pow10((am1 + b) as nat));
        assert((a + b) as nat == (am1 + b + 1) as nat);
        assert(pow10((am1 + b + 1) as nat) == 10 * pow10((am1 + b) as nat));
        assert(pow10(a) * pow10(b) == pow10((a + b) as nat));
    }
}

/// Whether `s` starts with a sign byte (`+` or `-`).
pub open spec fn has_sign(s: Seq<u8>) -> bool {
    s.len() > 0 && (s[0] == 43 || s[0] == 45)
}

/// Whether `s` starts with a minus sign.
pub open spec fn sign_negative(s: Seq<u8>) -> bool {
    s.len() > 0 && s[0] == 45
}

/// `s` with any leading sign byte removed.
pub open spec fn body_of(s: Seq<u8>) -> Seq<u8> {
    if has_sign(s) {
        s.drop_first()
    } else {
        s
    }
}

/// The digits of the integer part of an unsigned decimal literal: what
/// stands before the first dot.
pub open spec fn int_digits(body: Seq<u8>) -> Seq<u8> {
    body.take(find_dot(body))
}

/// The digits of the fractional part of an unsigned decimal literal: what
/// stands after the first dot, or nothing when there is no dot.
pub open spec fn frac_digits(body: Seq<u8>) -> Seq<u8> {
    if find_dot(body) == body.len() {
        Seq::empty()
    } else {
        body.skip(find_dot(body) + 1)
    }
}

/// Whether `body` is an unsigned decimal literal: digits around at most
/// one dot, with at least one digit somewhere.
pub open spec fn number_wf(body: Seq<u8>) -> bool {
    &&& all_digits(int_digits(body))
    &&& all_digits(frac_digits(body))
    &&& int_digits(body).len() + frac_digits(body).len() > 0
}

/// The fractional digits `fp` scaled to billionths: the first nine digits
/// count, further digits are truncated away.
pub open spec fn frac_scaled(fp: Seq<u8>) -> nat {
    let keep = if fp.len() > 9 {
        fp.take(9)
    } else {
        fp
    };
    digits_val(keep) * pow10((9 - keep.len()) as nat)
}

/// The magnitude of an unsigned decimal literal, in billionths of a unit.
pub open spec fn body_mag_nanos(body: Seq<u8>) -> nat {
    digits_val(int_digits(body)) * 1_000_000_000 + frac_scaled(frac_digits(body))
}

/// Whether the bytes `s` parse as a value: an optional sign, then an
/// unsigned decimal literal whose integer part fits eighteen digits.
pub open spec fn spec_parses(s: Seq<u8>) -> bool {
    &&& number_wf(body_of(s))
    &&& digits_val(int_digits(body_of(s))) < INT_LIMIT
}

/// The value the bytes `s` parse to, in canonical form: a zero magnitude
/// drops the sign.
pub open spec fn spec_value_of(s: Seq<u8>) -> Value {
    let m = body_mag_nanos(body_of(s));
    Value { negative: sign_negative(s) && m != 0, mag_nanos: m as u128 }
}

/// Scaling at most nine fractional digits to billionths stays below one
/// billion.
pub proof fn lemma_frac_scaled_bound(fp: Seq<u8>)
    requires
        all_digits(fp),
    ensures
        frac_scaled(fp) < 1_000_000_000,
{
    let keep = if fp.len() > 9 {
        fp.take(9)
    } else {
        fp
    };
    assert(all_digits(keep));
    lemma_digits_val_bound(keep);
    let k = keep.len() as nat;
    assert(k <= 9);
    let dk = digits_val(keep) as int;
    let pk = pow10(k) as int;
    let p9k = pow10((9 - k) as nat) as int;
    assert(pow10(9) == 1_000_000_000) by {
        reveal_with_fuel(pow10, 10);
    }
    lemma_pow10_increases(0, (9 - k) as nat);
    assert(1 <= p9k);
    // digits_val(keep) <= pow10(k) - 1, so the product is at most
    // pow10(k) * pow10(9 - k) - pow10(9 - k) == pow10(9) - pow10(9 - k).
    lemma_pow10_split(k, (9 - k) as nat);
    assert(pk * p9k == 1_000_000_000);
    vstd::arithmetic::mul::lemma_mul_inequality(dk, pk - 1, p9k);
    assert(dk * p9k <= (pk - 1) * p9k);
    vstd::arithmetic::mul::lemma_mul_is_distributive_sub_other_way(p9k, pk, 1);
    assert((pk - 1) * p9k == pk * p9k - 1 * p9k);
    assert(dk * p9k <= 1_000_000_000 - p9k);
    assert(frac_scaled(fp) == dk * p9k);
}

/// Reads the byte at `j` and reports whether it is an ASCII digit.
fn is_digit_at(s: &[u8], j: usize) -> (r: bool)
    requires
        j < s@.len(),
    ensures
        r == is_digit(s@[j as int]),
{
    let b = *slice_index_get(s, j);
    48 <= b && b <= 57
}

/// Reads the digit byte at `j` as its numeric value.
fn digit_at(s: &[u8], j: usize) -> (d: u8)
    requires
        j < s@.len(),
        is_digit(s@[j as int]),
    ensures
        d == digit_val(s@[j as int]),
{
    *slice_index_get(s, j) - 48
}

/// Ten to the `k`, executable, for the fractional scales.
fn pow10_small(k: usize) -> (r: u64)
    requires
        k <= 9,
    ensures
        r == pow10(k as nat),
{
    proof {
        reveal_with_fuel(pow10, 10);
    }
    if k == 0 {
        1
    } else if k == 1 {
        10
    } else if k == 2 {
        100
    } else if k == 3 {
        1_000
    } else if k == 4 {
        10_000
    } else if k == 5 {
        100_000
    } else if k == 6 {
        1_000_000
    } else if k == 7 {
        10_000_000
    } else if k == 8 {
        100_000_000
    } else {
        1_000_000_000
    }
}

/// The integer part accumulator, saturated at `INT_LIMIT`: the exact
/// digits value while it is in range, the limit once it is not.
spec fn sat_int(x: nat) -> nat {
    if x >= INT_LIMIT {
        INT_LIMIT as nat
    } else {
        x
    }
}

/// Parses the bytes `s` as a signed decimal value: an optional `+` or `-`
/// sign, then digits around at most one dot, with at least one digit.
/// Fractional digits past the ninth are truncated away; a literal whose
/// integer part needs more than eighteen digits is out of range and
/// rejected like any other malformed input.
pub fn parse_value(s: &[u8]) -> (r: Option<Value>)
    ensures
        match r {
            None => !spec_parses(s@),
            Some(v) => spec_parses(s@) && v == spec_value_of(s@) && v.wf(),
        },
{
    let n = s.len();
    let mut start: usize = 0;
    let mut negative = false;
    if n > 0 {
        let b0 = *slice_index_get(s, 0);
        if b0 == 43 {
            start = 1;
        } else if b0 == 45 {
            negative = true;
            start = 1;
        }
    }
    proof {
        assert(body_of(s@) =~= s@.skip(start as int));
        assert(negative == sign_negative(s@));
    }
    // Scan the integer digits, saturating at the range limit.
    let mut j = start;
    let mut acc: u128 = 0;
    while j < n && is_digit_at(s, j)
        invariant
            n == s@.len(),
            start <= j <= n,
            all_digits(s@.subrange(start as int, j as int)),
            acc == sat_int(digits_val(s@.subrange(start as int, j as int))),
        decreases n - j,
    {
        let d = digit_at(s, j);
        proof {
            let pre = s@.subrange(start as int, j as int);
            let post = s@.subrange(start as int, j + 1 as int);
            assert(post.drop_last() =~= pre);
            assert(post.last() == s@[j as int]);
            assert(all_digits(post)) by {
                assert forall|i: int| 0 <= i < post.len() implies is_digit(post[i]) by {
                    if i < post.len() - 1 {
                        assert(post[i] == pre[i]);
                    }
                }
            }
            assert(digits_val(post) == digits_val(pre) * 10 + digit_val(s@[j as int]));
        }
        let next = acc * 10 + (d as u128);
        acc = if next >= INT_LIMIT {
            INT_LIMIT
        } else {
            next
        };
        j = j + 1;
    }
    let ghost body = body_of(s@);
    let ghost ip = s@.subrange(start as int, j as int);
    if j == n {
        // No dot: the whole body is the integer part.
        proof {
            assert(body =~= ip);
            lemma_find_dot(body);
            if find_dot(body) < body.len() {
                assert(is_digit(body[find_dot(body)]));
            }
            assert(find_dot(body) == body.len());
            assert(int_digits(body) =~= body);
        }
        if j == start {
            // Empty input or a bare sign: no digit anywhere.
            None
        } else if acc >= INT_LIMIT {
            None
        } else {
            let mag: u128 = acc * 1_000_000_000;
            proof {
                assert(frac_digits(body) =~= Seq::<u8>::empty());
                assert(digits_val(Seq::<u8>::empty()) == 0);
                assert(frac_scaled(Seq::<u8>::empty()) == 0) by {
                    vstd::arithmetic::mul::lemma_mul_by_zero_is_zero(pow10(9) as int);
                }
                assert(body_mag_nanos(body) == digits_val(int_digits(body)) * 1_000_000_000);
            }
            Some(Value { negative: negative && mag != 0, mag_nanos: mag })
        }
    } else if !is_digit_at(s, j) && *slice_index_get(s, j) != 46 {
        // A byte that is neither a digit nor the dot.
        proof {
            lemma_find_dot(body);
            let p = find_dot(body);
            assert(body[j - start] == s@[j as int]);
            if p <= j - start {
                assert(body[p] == 46);
                assert(is_digit(body[p]));  // contradiction: it lies among scanned digits
                assert(false);
            }
            assert(int_digits(body)[j - start] == body[j - start]);
            assert(!all_digits(int_digits(body)));
        }
        None
    } else {
        // A dot: scan the fractional digits, keeping the first nine.
        proof {
            lemma_find_dot(body);
            let p = find_dot(body);
            assert(body[j - start] == s@[j as int]);
            if p < j - start {
                assert(body[p] == 46);
                assert(is_digit(body[p]));
                assert(false);
            }
            if p > j - start {
                assert(body[j - start] != 46);
                assert(false);
            }
            assert(p == j - start);
            assert(int_digits(body) =~= ip);
        }
        let fstart = j + 1;
        let ghost fp = frac_digits(body);
        proof {
            assert(fp =~= s@.subrange(fstart as int, n as int));
        }
        let mut p = fstart;
        let mut facc: u64 = 0;
        let mut kept: usize = 0;
        while p < n && kept < 9 && is_digit_at(s, p)
            invariant
                n == s@.len(),
                fstart <= p <= n,
                kept == p - fstart,
                kept <= 9,
                all_digits(s@.subrange(fstart as int, p as int)),
                facc == digits_val(s@.subrange(fstart as int, p as int)),
                facc < pow10(kept as nat),
            decreases n - p,
        {
            let d = digit_at(s, p);
            proof {
                let pre = s@.subrange(fstart as int, p as int);
                let post = s@.subrange(fstart as int, p + 1 as int);
                assert(post.drop_last() =~= pre);
                assert(post.last() == s@[p as int]);
                assert(all_digits(post)) by {
                    assert forall|i: int| 0 <= i < post.len() implies is_digit(post[i]) by {
                        if i < post.len() - 1 {
                            assert(post[i] == pre[i]);
                        }
                    }
                }
                assert(digits_val(post) == digits_val(pre) * 10 + digit_val(s@[p as int]));
                lemma_pow10_increases(kept as nat, 8);
                assert(pow10(8) == 100_000_000) by {
                    reveal_with_fuel(pow10, 10);
                }
                assert(pow10((kept + 1) as nat) == 10 * pow10(kept as nat));
            }
            facc = facc * 10 + (d as u64);
            kept = kept + 1;
            p = p + 1;
        }
        // Validate, then drop, any fractional digits past the ninth.
        let mut q = p;
        while q < n && is_digit_at(s, q)
            invariant
                n == s@.len(),
                p <= q <= n,
                all_digits(s@.subrange(p as int, q as int)),
            decreases n - q,
        {
            proof {
                let pre = s@.subrange(p as int, q as int);
                let post = s@.subrange(p as int, q + 1 as int);
                assert(post.drop_last() =~= pre);
                assert(post.last() == s@[q as int]);
                assert(all_digits(post)) by {
                    assert forall|i: int| 0 <= i < post.len() implies is_digit(post[i]) by {
                        if i < post.len() - 1 {
                            assert(post[i] == pre[i]);
                        }
                    }
                }
            }
            q = q + 1;
        }
        if q < n {
            // A non-digit byte inside the fraction.
            proof {
                assert(fp[q - fstart] == s@[q as int]);
                assert(!is_digit(fp[q - fstart]));
                assert(!all_digits(fp));
            }
            None
        } else if j == start && fstart == n {
            // A bare dot (possibly signed): no digit anywhere.
            proof {
                assert(int_digits(body).len() == 0);
                assert(fp.len() == 0);
            }
            None
        } else if acc >= INT_LIMIT {
            None
        } else {
            proof {
                // The whole fraction is digits: the kept part and the rest.
                assert(all_digits(fp)) by {
                    assert forall|i: int| 0 <= i < fp.len() implies is_digit(fp[i]) by {
                        if i < p - fstart {
                            assert(fp[i] == s@.subrange(fstart as int, p as int)[i]);
                        } else {
                            assert(fp[i] == s@.subrange(p as int, q as int)[i - (p - fstart)]);
                        }
                    }
                }
                // The scanned prefix is exactly the kept fractional digits.
                if kept == 9 {
                    if fp.len() > 9 {
                        assert(fp.take(9) =~= s@.subrange(fstart as int, p as int));
                    } else {
                        assert(fp =~= s@.subrange(fstart as int, p as int));
                    }
                } else {
                    if p < n {
                        // The first loop stopped on a non-digit, so the
                        // second never moved past it; but it reached the end.
                        assert(!is_digit(s@[p as int]));
                        assert(s@.subrange(p as int, q as int)[0] == s@[p as int]);
                        assert(false);
                    }
                    assert(p == n);
                    assert(fp =~= s@.subrange(fstart as int, p as int));
                }
                lemma_frac_scaled_bound(fp);
            }
            let scale = pow10_small(9 - kept);
            let fr: u64 = facc * scale;
            proof {
                assert(fr == frac_scaled(fp));
            }
            let mag: u128 = acc * 1_000_000_000 + (fr as u128);
            proof {
                assert(body_mag_nanos(body) == digits_val(int_digits(body)) * 1_000_000_000
                    + frac_scaled(fp));
            }
            Some(Value { negative: negative && mag != 0, mag_nanos: mag })
        }
    }
}

} // verus!
