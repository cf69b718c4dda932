use crate::common::decimal::{decimal_text, digit_char, fraction_text, natural_text, Decimal};
use crate::common::text::{
    all_digits, chars_of, digit_of, digit_value, digits_value, is_digit, is_digit_char,
    lemma_natural_text,
};
use vstd::prelude::*;

verus! {

/// The parts of a number in decimal notation are well formed: at least one digit before
/// the point, at most three after it.
pub open spec fn is_decimal_parts(whole: Seq<char>, fraction: Seq<char>) -> bool {
    &&& whole.len() >= 1
    &&& all_digits(whole)
    &&& fraction.len() <= 3
    &&& all_digits(fraction)
}

/// The text of a number from its parts: a minus sign if it is negative, the digits before
/// the point and, if there are digits after the point, the point and those digits.
pub open spec fn decimal_notation(negative: bool, whole: Seq<char>, fraction: Seq<char>) -> Seq<
    char,
> {
    (if negative {
        seq!['-']
    } else {
        Seq::<char>::empty()
    }) + whole + (if fraction.len() > 0 {
        seq!['.'] + fraction
    } else {
        Seq::<char>::empty()
    })
}

/// The thousandths that up to three digits after the point stand for.
pub open spec fn fraction_value(fraction: Seq<char>) -> nat {
    if fraction.len() == 1 {
        digits_value(fraction) * 100
    } else if fraction.len() == 2 {
        digits_value(fraction) * 10
    } else {
        digits_value(fraction)
    }
}

/// The number of thousandths that the parts of a number stand for.
pub open spec fn notation_value(negative: bool, whole: Seq<char>, fraction: Seq<char>) -> int {
    let magnitude = (digits_value(whole) * 1000 + fraction_value(fraction)) as int;
    if negative {
        -magnitude
    } else {
        magnitude
    }
}

/// `text` is decimal notation of `value` thousandths: an optional minus sign, one or more
/// digits and, optionally, a point and one to three digits.
pub open spec fn is_notation_of(text: Seq<char>, value: int) -> bool {
    exists|negative: bool, whole: Seq<char>, fraction: Seq<char>|
        is_decimal_parts(whole, fraction) && text == #[trigger] decimal_notation(
            negative,
            whole,
            fraction,
        ) && value == notation_value(negative, whole, fraction)
}

/// The number that `text` is decimal notation of, if a `Decimal` can hold it.
pub open spec fn decimal_of(text: Seq<char>) -> Option<Decimal> {
    if exists|value: int| i64::MIN <= value <= i64::MAX && #[trigger] is_notation_of(text, value) {
        Some(
            Decimal::of(
                choose|value: int|
                    i64::MIN <= value <= i64::MAX && #[trigger] is_notation_of(text, value),
            ),
        )
    } else {
        None
    }
}

/// From `start` up to `end` the characters are digits, and no digit follows them.
spec fn digit_run(chars: Seq<char>, start: int, end: int) -> bool {
    &&& 0 <= start <= end <= chars.len()
    &&& all_digits(chars.subrange(start, end))
    &&& (end < chars.len() ==> !is_digit(chars[end]))
}

/// The place of the first character after the sign.
spec fn unsigned_start(chars: Seq<char>) -> int {
    if chars.len() > 0 && chars[0] == '-' {
        1
    } else {
        0
    }
}

proof fn lemma_parts_found(
    chars: Seq<char>,
    negative: bool,
    whole: Seq<char>,
    fraction: Seq<char>,
    end: int,
)
    requires
        is_decimal_parts(whole, fraction),
        chars == decimal_notation(negative, whole, fraction),
        digit_run(chars, unsigned_start(chars), end),
    ensures
        negative == (unsigned_start(chars) == 1),
        whole == chars.subrange(unsigned_start(chars), end),
        end > unsigned_start(chars),
        fraction.len() == 0 ==> end == chars.len(),
        fraction.len() > 0 ==> end < chars.len() && chars[end] == '.' && fraction
            == chars.subrange(end + 1, chars.len() as int),
{
    let start = unsigned_start(chars);
    let sign = if negative {
        1int
    } else {
        0int
    };
    let tail: int = if fraction.len() > 0 {
        1 + fraction.len() as int
    } else {
        0
    };
    assert(chars.len() == sign + whole.len() + tail);
    assert(is_digit(whole[0]));
    if negative {
        assert(chars[0] == '-');
    } else {
        assert(chars[0] == whole[0]);
    }
    assert(start == sign);
    let stop = sign + whole.len();
    assert(chars.subrange(sign, stop) =~= whole);
    if stop < end {
        assert(chars.subrange(start, end)[stop - start] == chars[stop]);
        if fraction.len() > 0 {
            assert(chars[stop] == '.');
        }
    }
    if end < stop {
        assert(chars[end] == whole[end - sign]);
    }
    if fraction.len() > 0 {
        assert(chars[stop] == '.');
        assert(chars.subrange(stop + 1, chars.len() as int) =~= fraction);
    }
}

/// A text is decimal notation of at most one number.
pub proof fn lemma_notation_unique(text: Seq<char>, first: int, second: int)
    requires
        is_notation_of(text, first),
        is_notation_of(text, second),
    ensures
        first == second,
{
    let (n1, w1, f1) = choose|negative: bool, whole: Seq<char>, fraction: Seq<char>|
        is_decimal_parts(whole, fraction) && text == #[trigger] decimal_notation(
            negative,
            whole,
            fraction,
        ) && first == notation_value(negative, whole, fraction);
    let (n2, w2, f2) = choose|negative: bool, whole: Seq<char>, fraction: Seq<char>|
        is_decimal_parts(whole, fraction) && text == #[trigger] decimal_notation(
            negative,
            whole,
            fraction,
        ) && second == notation_value(negative, whole, fraction);
    let start = unsigned_start(text);
    let end = start + w1.len();
    assert(text.len() >= w1.len());
    assert(digit_run(text, start, end)) by {
        let sign = if n1 {
            1int
        } else {
            0int
        };
        assert(is_digit(w1[0]));
        if n1 {
            assert(text[0] == '-');
        } else {
            assert(text[0] == w1[0]);
        }
        assert(text.subrange(start, end) =~= w1);
        if f1.len() > 0 {
            assert(text[end] == '.');
        }
    }
    lemma_parts_found(text, n1, w1, f1, end);
    lemma_parts_found(text, n2, w2, f2, end);
    if f1.len() > 0 {
        assert(f2.len() > 0);
    }
    assert(f1 == f2);
}

/// The text of a number, as [`decimal_text`] writes it, is decimal notation of that number.
pub proof fn lemma_text_is_notation(value: int)
    ensures
        is_notation_of(decimal_text(value), value),
{
    let magnitude = if value < 0 {
        -value
    } else {
        value
    };
    let whole = natural_text((magnitude / 1000) as nat);
    let f = (magnitude % 1000) as nat;
    lemma_natural_text((magnitude / 1000) as nat);
    let d1 = digit_char((f / 100) as int);
    let d2 = digit_char((f / 10 % 10) as int);
    let d3 = digit_char((f % 10) as int);
    let fraction = if f == 0 {
        Seq::<char>::empty()
    } else if f % 100 == 0 {
        seq![d1]
    } else if f % 10 == 0 {
        seq![d1, d2]
    } else {
        seq![d1, d2, d3]
    };
    assert(digit_value(d1) == f / 100 && is_digit(d1));
    assert(digit_value(d2) == f / 10 % 10 && is_digit(d2));
    assert(digit_value(d3) == f % 10 && is_digit(d3));
    assert(digits_value(Seq::<char>::empty()) == 0);
    assert(digits_value(seq![d1]) == f / 100) by {
        assert(seq![d1].drop_last() =~= Seq::<char>::empty());
    }
    assert(digits_value(seq![d1, d2]) == (f / 100) * 10 + f / 10 % 10) by {
        assert(seq![d1, d2].drop_last() =~= seq![d1]);
    }
    assert(digits_value(seq![d1, d2, d3]) == ((f / 100) * 10 + f / 10 % 10) * 10 + f % 10) by {
        assert(seq![d1, d2, d3].drop_last() =~= seq![d1, d2]);
    }
    assert(fraction_value(fraction) == f);
    assert(fraction_text(f) =~= if fraction.len() > 0 {
        seq!['.'] + fraction
    } else {
        Seq::<char>::empty()
    });
    assert(is_decimal_parts(whole, fraction));
    assert(decimal_text(value) =~= decimal_notation(value < 0, whole, fraction));
    assert(notation_value(value < 0, whole, fraction) == value);
}

/// Reading the text of a number gives the number back.
pub proof fn lemma_text_reads_back(number: Decimal)
    ensures
        decimal_of(decimal_text(number@)) == Some(number),
{
    let text = decimal_text(number@);
    number.lemma_of_view();
    lemma_text_is_notation(number@);
    let chosen = choose|value: int|
        i64::MIN <= value <= i64::MAX && #[trigger] is_notation_of(text, value);
    lemma_notation_unique(text, chosen, number@);
}

fn read_digits(chars: &Vec<char>, start: usize, limit: u128) -> (found: (usize, Option<u64>))
    requires
        start <= chars.len(),
        limit <= 0x1_0000_0000_0000_0000,
    ensures
        digit_run(chars@, start as int, found.0 as int),
        match found.1 {
            Some(value) => value == digits_value(chars@.subrange(start as int, found.0 as int))
                && value < limit,
            None => digits_value(chars@.subrange(start as int, found.0 as int)) >= limit,
        },
{
    let mut end: usize = start;
    let mut value: u128 = 0;
    let mut beyond: bool = limit == 0;
    assert(chars@.subrange(start as int, start as int) =~= Seq::<char>::empty());
    while end < chars.len() && is_digit_char(chars[end])
        invariant
            start <= end <= chars.len(),
            limit <= 0x1_0000_0000_0000_0000,
            all_digits(chars@.subrange(start as int, end as int)),
            !beyond ==> value == digits_value(chars@.subrange(start as int, end as int)) && value
                < limit,
            beyond ==> digits_value(chars@.subrange(start as int, end as int)) >= limit,
        decreases chars.len() - end,
    {
        let digit = digit_of(chars[end]);
        proof {
            let before = chars@.subrange(start as int, end as int);
            let after = chars@.subrange(start as int, end + 1);
            assert(after.drop_last() =~= before);
            assert(after.last() == chars@[end as int]);
            assert forall|i: int| 0 <= i < after.len() implies is_digit(#[trigger] after[i]) by {
                if i < before.len() {
                    assert(after[i] == before[i]);
                }
            }
        }
        if !beyond {
            let next = value * 10 + digit as u128;
            if next >= limit {
                beyond = true;
            } else {
                value = next;
            }
        }
        end += 1;
    }
    if beyond {
        (end, None)
    } else {
        (end, Some(value as u64))
    }
}

impl Decimal {
    /// Reads a number in decimal notation: an optional minus sign, one or more digits and,
    /// optionally, a point and one to three digits. The result is the number that `text`
    /// is notation of; `None` if it is notation of no number that a `Decimal` can hold.
    pub fn parse(text: &str) -> (parsed: Option<Decimal>)
        ensures
            parsed == decimal_of(text@),
            match parsed {
                Some(number) => is_notation_of(text@, number@),
                None => forall|value: int|
                    i64::MIN <= value <= i64::MAX ==> !is_notation_of(text@, value),
            },
    {
        let parsed = Decimal::read(text);
        proof {
            if let Some(number) = parsed {
                number.lemma_of_view();
                assert(is_notation_of(text@, number@));
                let chosen = choose|value: int|
                    i64::MIN <= value <= i64::MAX && #[trigger] is_notation_of(text@, value);
                lemma_notation_unique(text@, chosen, number@);
            }
        }
        parsed
    }

    fn read(text: &str) -> (parsed: Option<Decimal>)
        ensures
            match parsed {
                Some(number) => is_notation_of(text@, number@),
                None => forall|value: int|
                    i64::MIN <= value <= i64::MAX ==> !is_notation_of(text@, value),
            },
    {
        let chars = chars_of(text);
        let len = chars.len();
        let negative = len > 0 && chars[0] == '-';
        let start: usize = if negative {
            1
        } else {
            0
        };
        assert(start == unsigned_start(chars@));
        let (end, whole) = read_digits(&chars, start, 10_000_000_000_000_000);
        let ghost whole_digits = chars@.subrange(start as int, end as int);
        if end == start {
            proof {
                assert forall|value: int| !is_notation_of(text@, value) by {
                    if is_notation_of(text@, value) {
                        let (n, w, f) = choose|n: bool, w: Seq<char>, f: Seq<char>|
                            is_decimal_parts(w, f) && text@ == #[trigger] decimal_notation(n, w, f)
                                && value == notation_value(n, w, f);
                        lemma_parts_found(chars@, n, w, f, end as int);
                    }
                }
            }
            return None;
        }
        let mut thousandths: u64 = 0;
        let ghost mut fraction_digits = Seq::<char>::empty();
        if end < len {
            if chars[end] != '.' || len - end < 2 || len - end > 4 {
                proof {
                    assert forall|value: int| !is_notation_of(text@, value) by {
                        if is_notation_of(text@, value) {
                            let (n, w, f) = choose|n: bool, w: Seq<char>, f: Seq<char>|
                                is_decimal_parts(w, f) && text@ == #[trigger] decimal_notation(
                                    n,
                                    w,
                                    f,
                                ) && value == notation_value(n, w, f);
                            lemma_parts_found(chars@, n, w, f, end as int);
                        }
                    }
                }
                return None;
            }
            let (stop, fraction) = read_digits(&chars, end + 1, 1000);
            proof {
                fraction_digits = chars@.subrange(end + 1, len as int);
            }
            if stop != len {
                proof {
                    assert forall|value: int| !is_notation_of(text@, value) by {
                        if is_notation_of(text@, value) {
                            let (n, w, f) = choose|n: bool, w: Seq<char>, f: Seq<char>|
                                is_decimal_parts(w, f) && text@ == #[trigger] decimal_notation(
                                    n,
                                    w,
                                    f,
                                ) && value == notation_value(n, w, f);
                            lemma_parts_found(chars@, n, w, f, end as int);
                            assert(f[stop - end - 1] == chars@[stop as int]);
                        }
                    }
                }
                return None;
            }
            proof {
                lemma_digits_bound(fraction_digits);
            }
            let digits = match fraction {
                Some(digits) => digits,
                None => 0,
            };
            thousandths = if len - end == 2 {
                digits * 100
            } else if len - end == 3 {
                digits * 10
            } else {
                digits
            };
        }
        assert(thousandths == fraction_value(fraction_digits) && thousandths < 1000) by {
            lemma_digits_bound(fraction_digits);
        }
        assert(is_decimal_parts(whole_digits, fraction_digits));
        assert(chars@ =~= decimal_notation(negative, whole_digits, fraction_digits));
        let ghost value = notation_value(negative, whole_digits, fraction_digits);
        proof {
            assert forall|other: int| is_notation_of(text@, other) implies other == value by {
                lemma_notation_unique(text@, other, value);
            }
        }
        let Some(whole) = whole else {
            return None;
        };
        let magnitude: i128 = (whole as i128) * 1000 + thousandths as i128;
        let signed: i128 = if negative {
            -magnitude
        } else {
            magnitude
        };
        assert(signed == value);
        if signed < i64::MIN as i128 || signed > i64::MAX as i128 {
            return None;
        }
        Some(Decimal::from_thousandths(signed as i64))
    }
}

/// The number that a text of digits stands for: `text` must be one or more digits, with
/// nothing before or after them, and the number must be at most `largest`.
pub open spec fn number_of(text: Seq<char>, largest: nat) -> Option<nat> {
    if text.len() >= 1 && all_digits(text) && digits_value(text) <= largest {
        Some(digits_value(text))
    } else {
        None
    }
}

/// The count that a text of digits stands for, if a `u32` can hold it.
pub open spec fn count_of(text: Seq<char>) -> Option<u32> {
    match number_of(text, u32::MAX as nat) {
        Some(value) => Some(value as u32),
        None => None,
    }
}

/// The small count that a text of digits stands for, if a `u8` can hold it.
pub open spec fn small_count_of(text: Seq<char>) -> Option<u8> {
    match number_of(text, u8::MAX as nat) {
        Some(value) => Some(value as u8),
        None => None,
    }
}

/// The amount that a text of digits stands for, if a `u64` can hold it.
pub open spec fn amount_of(text: Seq<char>) -> Option<u64> {
    match number_of(text, u64::MAX as nat) {
        Some(value) => Some(value as u64),
        None => None,
    }
}

fn read_number(text: &str, limit: u128) -> (parsed: Option<u64>)
    requires
        1 <= limit <= 0x1_0000_0000_0000_0000,
    ensures
        match parsed {
            Some(value) => number_of(text@, (limit - 1) as nat) == Some(value as nat),
            None => number_of(text@, (limit - 1) as nat) is None,
        },
{
    let chars = chars_of(text);
    let (end, value) = read_digits(&chars, 0, limit);
    assert(chars@.subrange(0, chars@.len() as int) =~= chars@);
    if end == 0 || end != chars.len() {
        proof {
            if all_digits(chars@) && end < chars.len() {
                assert(is_digit(chars@[end as int]));
            }
        }
        return None;
    }
    value
}

/// Reads a count: one or more digits, with nothing before or after them. `None` if `text`
/// is no such run of digits or the number is larger than a `u32` can hold.
pub fn parse_count(text: &str) -> (parsed: Option<u32>)
    ensures
        parsed == count_of(text@),
{
    match read_number(text, 0x1_0000_0000) {
        Some(value) => Some(value as u32),
        None => None,
    }
}

/// Reads a small count: one or more digits, with nothing before or after them. `None` if
/// `text` is no such run of digits or the number is larger than a `u8` can hold.
pub fn parse_small_count(text: &str) -> (parsed: Option<u8>)
    ensures
        parsed == small_count_of(text@),
{
    match read_number(text, 0x100) {
        Some(value) => Some(value as u8),
        None => None,
    }
}

/// Reads an amount: one or more digits, with nothing before or after them. `None` if
/// `text` is no such run of digits or the number is larger than a `u64` can hold.
pub fn parse_amount(text: &str) -> (parsed: Option<u64>)
    ensures
        parsed == amount_of(text@),
{
    read_number(text, 0x1_0000_0000_0000_0000)
}

/// A run of at most three digits stands for a number below a thousand, and a shorter run
/// for a smaller number.
proof fn lemma_digits_bound(digits: Seq<char>)
    requires
        digits.len() <= 3,
        all_digits(digits),
    ensures
        digits.len() == 0 ==> digits_value(digits) == 0,
        digits.len() == 1 ==> digits_value(digits) < 10,
        digits.len() == 2 ==> digits_value(digits) < 100,
        digits_value(digits) < 1000,
    decreases digits.len(),
{
    if digits.len() > 0 {
        let front = digits.drop_last();
        assert forall|i: int| 0 <= i < front.len() implies is_digit(#[trigger] front[i]) by {
            assert(front[i] == digits[i]);
        }
        lemma_digits_bound(front);
        assert(is_digit(digits.last()));
    }
}

} // verus!
