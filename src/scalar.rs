//! Numeric style values with a unit, and their four-sided box form.
use vstd::prelude::*;

verus! {

/// The unit of a [`Scalar`].
#[derive(Clone, Copy, Debug, PartialEq, Eq, Hash, Structural)]
pub enum Unit {
    /// Terminal cells.
    Cells,
    /// A fractional share of the free space.
    Fr,
    Percent,
    /// Percent of the viewport width.
    Vw,
    /// Percent of the viewport height.
    Vh,
    /// Decided by the layout; always carries the value 0.
    Auto,
}

/// A number with a unit. The value is held in thousandths: `1.5` is `1500`.
#[derive(Clone, Copy, Debug, PartialEq, Eq, Hash, Structural)]
pub struct Scalar {
    pub value: i64,
    pub unit: Unit,
}

impl Scalar {
    pub fn cells(value: i64) -> (r: Scalar)
        ensures
            r == (Scalar { value, unit: Unit::Cells }),
    {
        Scalar { value, unit: Unit::Cells }
    }

    pub fn fr(value: i64) -> (r: Scalar)
        ensures
            r == (Scalar { value, unit: Unit::Fr }),
    {
        Scalar { value, unit: Unit::Fr }
    }

    pub fn percent(value: i64) -> (r: Scalar)
        ensures
            r == (Scalar { value, unit: Unit::Percent }),
    {
        Scalar { value, unit: Unit::Percent }
    }

    pub fn vw(value: i64) -> (r: Scalar)
        ensures
            r == (Scalar { value, unit: Unit::Vw }),
    {
        Scalar { value, unit: Unit::Vw }
    }

    pub fn vh(value: i64) -> (r: Scalar)
        ensures
            r == (Scalar { value, unit: Unit::Vh }),
    {
        Scalar { value, unit: Unit::Vh }
    }

    pub fn auto() -> (r: Scalar)
        ensures
            r == (Scalar { value: 0, unit: Unit::Auto }),
    {
        Scalar { value: 0, unit: Unit::Auto }
    }

    pub fn is_auto(&self) -> (r: bool)
        ensures
            r == (self.unit == Unit::Auto),
    {
        self.unit == Unit::Auto
    }
}

/// Four scalars: top, right, bottom, left.
#[derive(Clone, Copy, Debug, PartialEq, Eq, Hash, Structural)]
pub struct ScalarBox {
    pub top: Scalar,
    pub right: Scalar,
    pub bottom: Scalar,
    pub left: Scalar,
}

impl ScalarBox {
    pub fn all(v: Scalar) -> (r: ScalarBox)
        ensures
            r == (ScalarBox { top: v, right: v, bottom: v, left: v }),
    {
        ScalarBox { top: v, right: v, bottom: v, left: v }
    }

    pub fn symmetric(vertical: Scalar, horizontal: Scalar) -> (r: ScalarBox)
        ensures
            r == (ScalarBox { top: vertical, right: horizontal, bottom: vertical, left: horizontal }),
    {
        ScalarBox { top: vertical, right: horizontal, bottom: vertical, left: horizontal }
    }

    pub fn new(top: Scalar, right: Scalar, bottom: Scalar, left: Scalar) -> (r: ScalarBox)
        ensures
            r == (ScalarBox { top, right, bottom, left }),
    {
        ScalarBox { top, right, bottom, left }
    }
}


pub open spec fn digit_char(d: nat) -> char {
    if d == 0 { '0' } else if d == 1 { '1' } else if d == 2 { '2' } else if d == 3 { '3' } else if d == 4 {
        '4'
    } else if d == 5 { '5' } else if d == 6 { '6' } else if d == 7 { '7' } else if d == 8 { '8' } else {
        '9'
    }
}

/// Decimal digits of `n`, most significant first.
pub open spec fn digits(n: nat) -> Seq<char>
    decreases n,
{
    if n < 10 {
        seq![digit_char(n)]
    } else {
        digits(n / 10) + seq![digit_char(n % 10)]
    }
}

/// The digits of a fraction in thousandths, without trailing zeros.
pub open spec fn fraction_digits(f: nat) -> Seq<char> {
    if f % 100 == 0 {
        seq![digit_char(f / 100)]
    } else if f % 10 == 0 {
        seq![digit_char(f / 100), digit_char((f / 10) % 10)]
    } else {
        seq![digit_char(f / 100), digit_char((f / 10) % 10), digit_char(f % 10)]
    }
}

/// A value in thousandths as decimal text: an optional `-`, the integer
/// part, and a fraction only when it is not zero.
pub open spec fn milli_text(v: int) -> Seq<char> {
    let m: nat = if v < 0 { (-v) as nat } else { v as nat };
    let sign = if v < 0 { seq!['-'] } else { Seq::empty() };
    let whole = sign + digits(m / 1000);
    if m % 1000 == 0 {
        whole
    } else {
        whole + seq!['.'] + fraction_digits(m % 1000)
    }
}

pub open spec fn unit_suffix(u: Unit) -> Seq<char> {
    match u {
        Unit::Cells => Seq::empty(),
        Unit::Fr => seq!['f', 'r'],
        Unit::Percent => seq!['%'],
        Unit::Vw => seq!['v', 'w'],
        Unit::Vh => seq!['v', 'h'],
        Unit::Auto => Seq::empty(),
    }
}

fn digit_of(d: u64) -> (r: char)
    requires
        d < 10,
    ensures
        r == digit_char(d as nat),
{
    if d == 0 { '0' } else if d == 1 { '1' } else if d == 2 { '2' } else if d == 3 { '3' } else if d == 4 {
        '4'
    } else if d == 5 { '5' } else if d == 6 { '6' } else if d == 7 { '7' } else if d == 8 { '8' } else {
        '9'
    }
}

fn push_digits(n: u64, out: &mut Vec<char>)
    ensures
        final(out)@ == old(out)@ + digits(n as nat),
    decreases n,
{
    if n < 10 {
        out.push(digit_of(n));
        proof {
            assert(final(out)@ =~= old(out)@ + digits(n as nat)) by {
                assert(out@ == old(out)@.push(digit_char(n as nat)));
            }
        }
    } else {
        push_digits(n / 10, out);
        let ghost mid = out@;
        out.push(digit_of(n % 10));
        proof {
            assert(out@ =~= old(out)@ + digits(n as nat));
        }
    }
}

fn push_fraction(f: u64, out: &mut Vec<char>)
    requires
        0 < f < 1000,
    ensures
        final(out)@ == old(out)@ + seq!['.'] + fraction_digits(f as nat),
{
    out.push('.');
    out.push(digit_of(f / 100));
    if f % 100 != 0 {
        out.push(digit_of((f / 10) % 10));
        if f % 10 != 0 {
            out.push(digit_of(f % 10));
        }
    }
    proof {
        assert(out@ =~= old(out)@ + seq!['.'] + fraction_digits(f as nat));
    }
}

fn push_milli(value: i64, out: &mut Vec<char>)
    ensures
        final(out)@ == old(out)@ + milli_text(value as int),
{
    let v = value as i128;
    let m: u64 = if v < 0 { (-v) as u64 } else { v as u64 };
    assert(m as int == if value < 0 { -value } else { value as int });
    if v < 0 {
        out.push('-');
    }
    let ghost signed = out@;
    push_digits(m / 1000, out);
    let f = m % 1000;
    if f != 0 {
        push_fraction(f, out);
    }
    proof {
        assert(out@ =~= old(out)@ + milli_text(value as int));
    }
}

fn push_suffix(u: Unit, out: &mut Vec<char>)
    ensures
        final(out)@ == old(out)@ + unit_suffix(u),
{
    match u {
        Unit::Fr => {
            out.push('f');
            out.push('r');
        },
        Unit::Percent => {
            out.push('%');
        },
        Unit::Vw => {
            out.push('v');
            out.push('w');
        },
        Unit::Vh => {
            out.push('v');
            out.push('h');
        },
        _ => {},
    }
    proof {
        assert(out@ =~= old(out)@ + unit_suffix(u));
    }
}

impl Scalar {
    /// The value with its unit, as written in a stylesheet: `10`, `2.5`,
    /// `1fr`, `50%`, `100vw`, `80vh`, or `auto`.
    pub fn to_text(&self) -> (r: String)
        ensures
            self.unit == Unit::Auto ==> r@ == seq!['a', 'u', 't', 'o'],
            self.unit != Unit::Auto ==> r@ == milli_text(self.value as int) + unit_suffix(self.unit),
    {
        let mut out: Vec<char> = Vec::new();
        if self.unit == Unit::Auto {
            out.push('a');
            out.push('u');
            out.push('t');
            out.push('o');
            proof {
                assert(out@ =~= seq!['a', 'u', 't', 'o']);
            }
            return crate::text::string_from_chars(out);
        }
        push_milli(self.value, &mut out);
        push_suffix(self.unit, &mut out);
        crate::text::string_from_chars(out)
    }
}

} // verus!
