use vstd::prelude::*;

use crate::rate::Rate;

verus! {

/// The ASCII digit for `d`.
pub open spec fn digit_byte(d: nat) -> u8 {
    (48 + d) as u8
}

/// The decimal digits of `n`, most significant first, with no leading
/// zeros (a single `'0'` for zero).
pub open spec fn dec_digits(n: nat) -> Seq<u8>
    decreases n,
{
    if n < 10 {
        seq![digit_byte(n)]
    } else {
        dec_digits(n / 10).push(digit_byte(n % 10))
    }
}

/// The nine fractional digits of `f` billionths, most significant first,
/// zero padded: digit `k` (from 0) is `f / 10^(8-k) mod 10`.
pub open spec fn frac_digit_bytes(f: nat) -> Seq<u8> {
    seq![
        digit_byte(f / 100_000_000 % 10),
        digit_byte(f / 10_000_000 % 10),
        digit_byte(f / 1_000_000 % 10),
        digit_byte(f / 100_000 % 10),
        digit_byte(f / 10_000 % 10),
        digit_byte(f / 1_000 % 10),
        digit_byte(f / 100 % 10),
        digit_byte(f / 10 % 10),
        digit_byte(f % 10),
    ]
}

/// The text of a rate: `inf` for the zero-duration sentinel; otherwise an
/// optional minus sign, the whole units, and, when the fractional part is
/// not zero, a dot and all nine fractional digits.
pub open spec fn rate_text(r: Rate) -> Seq<u8> {
    match r {
        Rate::Infinite => seq![105u8, 110u8, 102u8],
        Rate::Finite { negative, nanos_per_sec } => {
            let sign: Seq<u8> = if negative {
                seq![45u8]
            } else {
                Seq::<u8>::empty()
            };
            let units = dec_digits((nanos_per_sec / 1_000_000_000) as nat);
            let frac = (nanos_per_sec % 1_000_000_000) as nat;
            if frac == 0 {
                sign + units
            } else {
                sign + units + seq![46u8] + frac_digit_bytes(frac)
            }
        },
    }
}

/// Appends the decimal digits of `n` to `out`.
pub fn push_dec(n: u128, out: &mut Vec<u8>)
    ensures
        final(out)@ == old(out)@ + dec_digits(n as nat),
    decreases n,
{
    if n >= 10 {
        push_dec(n / 10, out);
    }
    out.push(48 + (n % 10) as u8);
    proof {
        assert(out@ =~= old(out)@ + dec_digits(n as nat));
    }
}

/// Appends the nine zero-padded fractional digits of `f` billionths.
pub fn push_frac(f: u64, out: &mut Vec<u8>)
    requires
        f < 1_000_000_000,
    ensures
        final(out)@ == old(out)@ + frac_digit_bytes(f as nat),
{
    out.push(48 + (f / 100_000_000 % 10) as u8);
    out.push(48 + (f / 10_000_000 % 10) as u8);
    out.push(48 + (f / 1_000_000 % 10) as u8);
    out.push(48 + (f / 100_000 % 10) as u8);
    out.push(48 + (f / 10_000 % 10) as u8);
    out.push(48 + (f / 1_000 % 10) as u8);
    out.push(48 + (f / 100 % 10) as u8);
    out.push(48 + (f / 10 % 10) as u8);
    out.push(48 + (f % 10) as u8);
    proof {
        assert(out@ =~= old(out)@ + frac_digit_bytes(f as nat));
    }
}

/// Renders a rate as plain text bytes.
pub fn render_rate(r: &Rate) -> (out: Vec<u8>)
    ensures
        out@ == rate_text(*r),
{
    let mut out: Vec<u8> = Vec::new();
    match r {
        Rate::Infinite => {
            out.push(105u8);
            out.push(110u8);
            out.push(102u8);
        },
        Rate::Finite { negative, nanos_per_sec } => {
            if *negative {
                out.push(45u8);
            }
            push_dec(*nanos_per_sec / 1_000_000_000, &mut out);
            let frac = *nanos_per_sec % 1_000_000_000;
            if frac > 0 {
                out.push(46u8);
                push_frac(frac as u64, &mut out);
            }
        },
    }
    proof {
        assert(out@ =~= rate_text(*r));
    }
    out
}

/// The report line of the line-rate counter: the rate, then ` lines/sec`.
pub open spec fn lines_report_text(r: Rate) -> Seq<u8> {
    rate_text(r) + seq![32u8, 108u8, 105u8, 110u8, 101u8, 115u8, 47u8, 115u8, 101u8, 99u8]
}

/// Renders the single end-of-stream report of the line-rate counter.
pub fn render_lines_report(r: &Rate) -> (out: Vec<u8>)
    ensures
        out@ == lines_report_text(*r),
{
    let mut out = render_rate(r);
    out.push(32u8);
    out.push(108u8);
    out.push(105u8);
    out.push(110u8);
    out.push(101u8);
    out.push(115u8);
    out.push(47u8);
    out.push(115u8);
    out.push(101u8);
    out.push(99u8);
    proof {
        assert(out@ =~= lines_report_text(*r));
    }
    out
}

/// A per-pair report line of the value-rate differentiator: the rate,
/// then ` 1/s`.
pub open spec fn numbers_report_text(r: Rate) -> Seq<u8> {
    rate_text(r) + seq![32u8, 49u8, 47u8, 115u8]
}

/// Renders one incremental report of the value-rate differentiator.
pub fn render_numbers_report(r: &Rate) -> (out: Vec<u8>)
    ensures
        out@ == numbers_report_text(*r),
{
    let mut out = render_rate(r);
    out.push(32u8);
    out.push(49u8);
    out.push(47u8);
    out.push(115u8);
    proof {
        assert(out@ =~= numbers_report_text(*r));
    }
    out
}

} // verus!
