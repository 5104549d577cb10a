//! Rendering of fixed-point amounts as ASCII decimal text: a minus sign
//! where negative, the whole part without leading zeros, and the
//! fractional part to its natural precision, trailing zeros dropped.

use vstd::prelude::*;

use crate::types::{Amount, UNITS_PER_WHOLE, amount_wf};

verus! {

/// The ASCII decimal digits of `n`, most significant first; empty for
/// zero.
pub open spec fn spec_digits(n: nat) -> Seq<u8>
    decreases n,
{
    if n == 0 {
        Seq::empty()
    } else {
        spec_digits(n / 10).push((48 + n % 10) as u8)
    }
}

/// The ASCII digits of a whole part: `0` is written as one zero digit.
pub open spec fn spec_whole_digits(whole: nat) -> Seq<u8> {
    if whole == 0 {
        seq![48u8]
    } else {
        spec_digits(whole)
    }
}

/// The ASCII digits of a non-zero fractional part of four decimal
/// places, with trailing zeros dropped.
pub open spec fn spec_frac_digits(frac: nat) -> Seq<u8> {
    let d1 = (48 + frac / 1000 % 10) as u8;
    let d2 = (48 + frac / 100 % 10) as u8;
    let d3 = (48 + frac / 10 % 10) as u8;
    let d4 = (48 + frac % 10) as u8;
    if frac % 10 != 0 {
        seq![d1, d2, d3, d4]
    } else if frac % 100 != 0 {
        seq![d1, d2, d3]
    } else if frac % 1000 != 0 {
        seq![d1, d2]
    } else {
        seq![d1]
    }
}

/// The full ASCII rendering of a unit count: sign, whole part, and the
/// fractional part with a dot where it is non-zero.
pub open spec fn spec_render_amount(units: int) -> Seq<u8> {
    let mag = (if units < 0 {
        -units
    } else {
        units
    }) as nat;
    let whole = mag / (UNITS_PER_WHOLE as nat);
    let frac = mag % (UNITS_PER_WHOLE as nat);
    let body = if frac == 0 {
        spec_whole_digits(whole)
    } else {
        spec_whole_digits(whole) + seq![46u8] + spec_frac_digits(frac)
    };
    if units < 0 {
        seq![45u8] + body
    } else {
        body
    }
}

/// Renders a non-negative whole part, one zero digit for zero.
fn whole_digits(whole: i128) -> (r: Vec<u8>)
    requires
        0 <= whole,
    ensures
        r@ == spec_whole_digits(whole as nat),
{
    let mut digits: Vec<u8> = Vec::new();
    if whole == 0 {
        digits.push(48);
        return digits;
    }
    let mut n: i128 = whole;
    while n > 0
        invariant
            0 <= n <= whole,
            spec_digits(whole as nat) == spec_digits(n as nat) + digits@,
        decreases n,
    {
        proof {
            assert(n / 10 < n && 0 <= n / 10) by (nonlinear_arith)
                requires
                    n > 0,
            ;
            assert(0 <= n % 10 < 10) by (nonlinear_arith)
                requires
                    n > 0,
            ;
        }
        let d: u8 = (n % 10) as u8 + 48;
        digits.insert(0, d);
        proof {
            assert(spec_digits(n as nat) == spec_digits((n as nat) / 10).push(
                (48 + (n as nat) % 10) as u8,
            ));
            assert((n / 10) as nat == (n as nat) / 10);
            assert((n % 10) as nat == (n as nat) % 10);
            assert(spec_digits(whole as nat) =~= spec_digits((n / 10) as nat) + digits@);
        }
        n = n / 10;
    }
    proof {
        assert(spec_digits(0nat) == Seq::<u8>::empty());
        assert(spec_digits(whole as nat) =~= digits@);
    }
    digits
}

/// Renders a non-zero fractional part of four decimal places, trailing
/// zeros dropped.
fn frac_digits(frac: i128) -> (r: Vec<u8>)
    requires
        0 < frac < UNITS_PER_WHOLE,
    ensures
        r@ == spec_frac_digits(frac as nat),
{
    proof {
        assert(0 <= frac / 1000 % 10 < 10 && 0 <= frac / 100 % 10 < 10 && 0 <= frac / 10 % 10 < 10
            && 0 <= frac % 10 < 10) by (nonlinear_arith)
            requires
                0 < frac,
        ;
        assert((frac / 1000) as nat == (frac as nat) / 1000 && (frac / 100) as nat == (frac as nat)
            / 100 && (frac / 10) as nat == (frac as nat) / 10);
        assert((frac % 1000) as nat == (frac as nat) % 1000 && (frac % 100) as nat == (frac as nat)
            % 100 && (frac % 10) as nat == (frac as nat) % 10);
    }
    let d1: u8 = (frac / 1000 % 10) as u8 + 48;
    let d2: u8 = (frac / 100 % 10) as u8 + 48;
    let d3: u8 = (frac / 10 % 10) as u8 + 48;
    let d4: u8 = (frac % 10) as u8 + 48;
    let mut digits: Vec<u8> = Vec::new();
    digits.push(d1);
    if frac % 10 != 0 {
        digits.push(d2);
        digits.push(d3);
        digits.push(d4);
    } else if frac % 100 != 0 {
        digits.push(d2);
        digits.push(d3);
    } else if frac % 1000 != 0 {
        digits.push(d2);
    }
    proof {
        assert(digits@ =~= spec_frac_digits(frac as nat));
    }
    digits
}

/// Renders an amount as ASCII bytes, e.g. ten whole units as `10` and a
/// quarter as `0.25`.
pub fn render_amount(a: Amount) -> (r: Vec<u8>)
    requires
        amount_wf(a),
    ensures
        r@ == spec_render_amount(a.units as int),
{
    let mut out: Vec<u8> = Vec::new();
    if a.units < 0 {
        out.push(45);
    }
    let mag: i128 = if a.units < 0 {
        -a.units
    } else {
        a.units
    };
    let whole: i128 = mag / UNITS_PER_WHOLE;
    let frac: i128 = mag % UNITS_PER_WHOLE;
    proof {
        assert(0 <= whole && 0 <= frac < UNITS_PER_WHOLE) by (nonlinear_arith)
            requires
                0 <= mag && whole == mag / UNITS_PER_WHOLE && frac == mag % UNITS_PER_WHOLE,
        ;
        assert((whole as nat) == (mag as nat) / (UNITS_PER_WHOLE as nat));
        assert((frac as nat) == (mag as nat) % (UNITS_PER_WHOLE as nat));
    }
    let mut body = whole_digits(whole);
    out.append(&mut body);
    if frac != 0 {
        out.push(46);
        let mut tail = frac_digits(frac);
        out.append(&mut tail);
    }
    proof {
        assert(out@ =~= spec_render_amount(a.units as int));
    }
    out
}

} // verus!
