use vstd::prelude::*;
use vstd::string::StringExecFns;

verus! {

/// A signed fixed-point number with three decimal places.
///
/// Measurements and their ceilings are held as a whole number of thousandths, so that
/// comparing two of them is exact and the text of one is the same on every machine.
#[derive(Debug, Clone, Copy, PartialEq, Eq, Structural)]
pub struct Decimal {
    thousandths: i64,
}

impl View for Decimal {
    type V = int;

    /// The number of thousandths.
    closed spec fn view(&self) -> int {
        self.thousandths as int
    }
}

/// The character of the decimal digit `d`, for `0 <= d <= 9`.
pub open spec fn digit_char(d: int) -> char {
    if d == 0 {
        '0'
    } else if d == 1 {
        '1'
    } else if d == 2 {
        '2'
    } else if d == 3 {
        '3'
    } else if d == 4 {
        '4'
    } else if d == 5 {
        '5'
    } else if d == 6 {
        '6'
    } else if d == 7 {
        '7'
    } else if d == 8 {
        '8'
    } else {
        '9'
    }
}

/// The decimal notation of a natural number, without leading zeros.
pub open spec fn natural_text(n: nat) -> Seq<char>
    decreases n,
{
    if n < 10 {
        seq![digit_char(n as int)]
    } else {
        natural_text(n / 10).push(digit_char((n % 10) as int))
    }
}

/// The notation of `f` thousandths, for `f < 1000`: nothing if `f` is zero, else a point
/// and the digits up to the last one that is not zero.
pub open spec fn fraction_text(f: nat) -> Seq<char> {
    if f == 0 {
        Seq::empty()
    } else if f % 100 == 0 {
        seq!['.', digit_char((f / 100) as int)]
    } else if f % 10 == 0 {
        seq!['.', digit_char((f / 100) as int), digit_char((f / 10 % 10) as int)]
    } else {
        seq![
            '.',
            digit_char((f / 100) as int),
            digit_char((f / 10 % 10) as int),
            digit_char((f % 10) as int),
        ]
    }
}

/// The notation of `v` thousandths: a minus sign if `v` is negative, the whole part, and
/// the fraction as [`fraction_text`] writes it. So 1100 is `1.1` and 2000 is `2`.
pub open spec fn decimal_text(v: int) -> Seq<char> {
    let magnitude = if v < 0 { -v } else { v };
    let sign = if v < 0 { seq!['-'] } else { Seq::<char>::empty() };
    sign + natural_text((magnitude / 1000) as nat) + fraction_text((magnitude % 1000) as nat)
}

fn digit_str(d: u64) -> (s: &'static str)
    requires
        d < 10,
    ensures
        s@ == seq![digit_char(d as int)],
{
    proof {
        reveal_strlit("0");
        reveal_strlit("1");
        reveal_strlit("2");
        reveal_strlit("3");
        reveal_strlit("4");
        reveal_strlit("5");
        reveal_strlit("6");
        reveal_strlit("7");
        reveal_strlit("8");
        reveal_strlit("9");
    }
    let s = if d == 0 {
        "0"
    } else if d == 1 {
        "1"
    } else if d == 2 {
        "2"
    } else if d == 3 {
        "3"
    } else if d == 4 {
        "4"
    } else if d == 5 {
        "5"
    } else if d == 6 {
        "6"
    } else if d == 7 {
        "7"
    } else if d == 8 {
        "8"
    } else {
        "9"
    };
    assert(s@ =~= seq![digit_char(d as int)]);
    s
}

fn append_natural(out: &mut String, n: u64)
    ensures
        final(out)@ == old(out)@ + natural_text(n as nat),
    decreases n,
{
    if n >= 10 {
        append_natural(out, n / 10);
    }
    out.append(digit_str(n % 10));
    assert(out@ =~= old(out)@ + natural_text(n as nat));
}

fn append_fraction(out: &mut String, f: u64)
    requires
        f < 1000,
    ensures
        final(out)@ == old(out)@ + fraction_text(f as nat),
{
    if f != 0 {
        proof {
            reveal_strlit(".");
        }
        out.append(".");
        out.append(digit_str(f / 100));
        if f % 100 != 0 {
            out.append(digit_str(f / 10 % 10));
            if f % 10 != 0 {
                out.append(digit_str(f % 10));
            }
        }
    }
    assert(out@ =~= old(out)@ + fraction_text(f as nat));
}

impl Decimal {
    /// The number that is `thousandths` thousandths, for what an `i64` can hold.
    pub closed spec fn of(thousandths: int) -> Decimal {
        Decimal { thousandths: thousandths as i64 }
    }

    /// A number is the number of its thousandths, and no other number has as many.
    pub proof fn lemma_of_view(self)
        ensures
            i64::MIN <= self@ <= i64::MAX,
            Decimal::of(self@) == self,
            forall|other: Decimal| other@ == self@ ==> other == self,
    {
    }

    /// The number of `thousandths` thousandths has that many thousandths.
    pub proof fn lemma_view_of(thousandths: int)
        requires
            i64::MIN <= thousandths <= i64::MAX,
        ensures
            Decimal::of(thousandths)@ == thousandths,
    {
    }

    /// The number that is `thousandths` thousandths: `from_thousandths(1100)` is 1.1.
    pub fn from_thousandths(thousandths: i64) -> (d: Decimal)
        ensures
            d@ == thousandths,
            d == Decimal::of(thousandths as int),
    {
        Decimal { thousandths }
    }

    /// The number as a count of thousandths.
    pub fn thousandths(&self) -> (t: i64)
        ensures
            t == self@,
    {
        self.thousandths
    }

    /// Whether this number is strictly greater than `ceiling`.
    pub fn exceeds(&self, ceiling: &Decimal) -> (over: bool)
        ensures
            over == (self@ > ceiling@),
    {
        self.thousandths > ceiling.thousandths
    }

    /// The number in decimal notation, as [`decimal_text`] defines it.
    pub fn to_text(&self) -> (text: String)
        ensures
            text@ == decimal_text(self@),
    {
        let wide: i128 = self.thousandths as i128;
        let negative = wide < 0;
        let magnitude: i128 = if negative { -wide } else { wide };
        let whole: u64 = (magnitude / 1000) as u64;
        let fraction: u64 = (magnitude % 1000) as u64;
        let mut text = String::new();
        if negative {
            proof {
                reveal_strlit("-");
            }
            text.append("-");
        }
        append_natural(&mut text, whole);
        append_fraction(&mut text, fraction);
        assert(text@ =~= decimal_text(self@));
        text
    }
}

} // verus!
