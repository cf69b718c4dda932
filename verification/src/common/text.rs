use crate::common::decimal::{digit_char, natural_text};
use vstd::prelude::*;
use vstd::string::StrSliceExecFns;

verus! {

/// The characters of a text, one by one.
pub fn chars_of(text: &str) -> (chars: Vec<char>)
    ensures
        chars@ == text@,
{
    let mut chars: Vec<char> = Vec::new();
    for c in it: text.chars()
        invariant
            it.seq() == text@,
            chars@ == text@.take(it.index() as int),
    {
        chars.push(c);
        assert(text@.take(it.index() + 1) =~= text@.take(it.index() as int).push(c));
    }
    assert(text@.take(text@.len() as int) =~= text@);
    chars
}

/// Whether two texts hold the same characters.
pub fn same_text(one: &str, other: &str) -> (same: bool)
    ensures
        same == (one@ == other@),
{
    one.to_owned() == other.to_owned()
}

/// Whether `c` is one of the ten decimal digits.
pub open spec fn is_digit(c: char) -> bool {
    c == '0' || c == '1' || c == '2' || c == '3' || c == '4' || c == '5' || c == '6' || c == '7'
        || c == '8' || c == '9'
}

/// The number that the digit `c` stands for.
pub open spec fn digit_value(c: char) -> nat {
    if c == '0' {
        0
    } else if c == '1' {
        1
    } else if c == '2' {
        2
    } else if c == '3' {
        3
    } else if c == '4' {
        4
    } else if c == '5' {
        5
    } else if c == '6' {
        6
    } else if c == '7' {
        7
    } else if c == '8' {
        8
    } else {
        9
    }
}

/// Every character of `s` is a digit.
pub open spec fn all_digits(s: Seq<char>) -> bool {
    forall|i: int| 0 <= i < s.len() ==> is_digit(#[trigger] s[i])
}

/// The number that a run of digits stands for, read as decimal notation.
pub open spec fn digits_value(s: Seq<char>) -> nat
    decreases s.len(),
{
    if s.len() == 0 {
        0
    } else {
        digits_value(s.drop_last()) * 10 + digit_value(s.last())
    }
}

/// A run of digits is the notation of a natural number: it is not empty and begins with
/// a zero only if it is the single digit zero.
pub open spec fn is_natural_text(s: Seq<char>) -> bool {
    &&& s.len() >= 1
    &&& all_digits(s)
    &&& (s.len() > 1 ==> s[0] != '0')
}

/// Whether `c` is a decimal digit.
pub fn is_digit_char(c: char) -> (digit: bool)
    ensures
        digit == is_digit(c),
{
    c == '0' || c == '1' || c == '2' || c == '3' || c == '4' || c == '5' || c == '6' || c == '7'
        || c == '8' || c == '9'
}

/// The number that the digit `c` stands for.
pub fn digit_of(c: char) -> (d: u8)
    requires
        is_digit(c),
    ensures
        d == digit_value(c),
        d < 10,
        digit_char(d as int) == c,
{
    if c == '0' {
        0
    } else if c == '1' {
        1
    } else if c == '2' {
        2
    } else if c == '3' {
        3
    } else if c == '4' {
        4
    } else if c == '5' {
        5
    } else if c == '6' {
        6
    } else if c == '7' {
        7
    } else if c == '8' {
        8
    } else {
        9
    }
}

/// The notation of a natural number is a run of digits that stands for that number, and
/// it is as long as the number is large.
pub proof fn lemma_natural_text(n: nat)
    ensures
        is_natural_text(natural_text(n)),
        digits_value(natural_text(n)) == n,
        natural_text(n)[0] == '0' ==> n == 0,
        n < 10 ==> natural_text(n).len() == 1,
        10 <= n < 100 ==> natural_text(n).len() == 2,
        100 <= n < 1000 ==> natural_text(n).len() == 3,
        n >= 1000 ==> natural_text(n).len() >= 4,
    decreases n,
{
    let text = natural_text(n);
    if n < 10 {
        assert(text.drop_last() =~= Seq::<char>::empty());
        assert(digits_value(text.drop_last()) == 0);
    } else {
        lemma_natural_text(n / 10);
        let front = natural_text(n / 10);
        assert(text.drop_last() =~= front);
        assert(text.last() == digit_char((n % 10) as int));
        assert(text[0] == front[0]);
        assert forall|i: int| 0 <= i < text.len() implies is_digit(#[trigger] text[i]) by {
            if i < front.len() {
                assert(text[i] == front[i]);
            }
        }
    }
}

/// A run of digits that is the notation of a natural number is the notation of the number
/// it stands for.
pub proof fn lemma_natural_text_of_value(s: Seq<char>)
    requires
        is_natural_text(s),
    ensures
        natural_text(digits_value(s)) == s,
        s[0] != '0' ==> digits_value(s) >= 1,
    decreases s.len(),
{
    let front = s.drop_last();
    if s.len() == 1 {
        assert(front =~= Seq::<char>::empty());
        assert(digits_value(front) == 0);
        assert(natural_text(digits_value(s)) =~= s);
    } else {
        assert(is_natural_text(front)) by {
            assert forall|i: int| 0 <= i < front.len() implies is_digit(#[trigger] front[i]) by {
                assert(front[i] == s[i]);
            }
            assert(front[0] == s[0]);
        }
        lemma_natural_text_of_value(front);
        assert(front[0] == s[0]);
        let value = digits_value(s);
        assert(value >= 10);
        assert(value / 10 == digits_value(front));
        assert(value % 10 == digit_value(s.last()));
        assert(natural_text(value) =~= s);
    }
}

/// Whether `c` separates fields: a space, a tab, a line feed or a carriage return.
pub open spec fn is_blank(c: char) -> bool {
    c == ' ' || c == '\t' || c == '\n' || c == '\r'
}

/// Whether `c` ends a line: a line feed or a carriage return.
pub open spec fn is_line_end(c: char) -> bool {
    c == '\n' || c == '\r'
}

/// Whether `c` separates the runs of a text: what ends a line if the text is taken line
/// by line, else what is blank.
pub open spec fn separates(c: char, by_line: bool) -> bool {
    if by_line {
        is_line_end(c)
    } else {
        is_blank(c)
    }
}

/// The longest runs of characters of a text that hold no separator, from left to right.
pub open spec fn runs(text: Seq<char>, by_line: bool) -> Seq<Seq<char>>
    decreases text.len(),
{
    if text.len() == 0 {
        Seq::empty()
    } else {
        let front = text.drop_last();
        let last = text.last();
        if separates(last, by_line) {
            runs(front, by_line)
        } else if front.len() > 0 && !separates(front.last(), by_line) {
            runs(front, by_line).drop_last().push(runs(front, by_line).last().push(last))
        } else {
            runs(front, by_line).push(seq![last])
        }
    }
}

/// The fields of a text: its longest runs of characters that are not blank, from left to
/// right.
pub open spec fn fields(text: Seq<char>) -> Seq<Seq<char>> {
    runs(text, false)
}

/// The lines of a text that are not empty, from top to bottom.
pub open spec fn lines(text: Seq<char>) -> Seq<Seq<char>> {
    runs(text, true)
}

/// Whether `c` separates fields.
pub fn is_blank_char(c: char) -> (blank: bool)
    ensures
        blank == is_blank(c),
{
    c == ' ' || c == '\t' || c == '\n' || c == '\r'
}

/// The views of a list of texts.
pub open spec fn text_views(texts: Seq<&str>) -> Seq<Seq<char>> {
    Seq::new(texts.len(), |i: int| texts[i]@)
}

fn split_runs<'a>(text: &'a str, by_line: bool) -> (found: Vec<&'a str>)
    ensures
        text_views(found@) == runs(text@, by_line),
{
    let chars = chars_of(text);
    let mut found: Vec<&'a str> = Vec::new();
    let mut start: usize = 0;
    let mut in_run: bool = false;
    let mut i: usize = 0;
    assert(chars@.take(0) =~= Seq::<char>::empty());
    assert(text_views(found@) =~= Seq::<Seq<char>>::empty());
    while i < chars.len()
        invariant
            i <= chars.len(),
            chars@ == text@,
            in_run ==> start < i && !separates(chars@[i - 1], by_line),
            !in_run ==> i == 0 || separates(chars@[i - 1], by_line),
            runs(chars@.take(i as int), by_line) == if in_run {
                text_views(found@).push(chars@.subrange(start as int, i as int))
            } else {
                text_views(found@)
            },
        decreases chars.len() - i,
    {
        let c = chars[i];
        let separator = if by_line {
            c == '\n' || c == '\r'
        } else {
            is_blank_char(c)
        };
        proof {
            let before = chars@.take(i as int);
            let after = chars@.take(i + 1);
            assert(after.drop_last() =~= before);
            assert(after.last() == chars@[i as int]);
            if i > 0 {
                assert(before.last() == chars@[i - 1]);
            }
        }
        if separator {
            if in_run {
                let ghost views = text_views(found@);
                let run = text.substring_char(start, i);
                found.push(run);
                assert(text_views(found@) =~= views.push(chars@.subrange(start as int, i as int)));
                in_run = false;
            }
        } else {
            if in_run {
                proof {
                    let views = text_views(found@);
                    let run = chars@.subrange(start as int, i as int);
                    assert(views.push(run).drop_last() =~= views);
                    assert(run.push(chars@[i as int]) =~= chars@.subrange(start as int, i + 1));
                }
            } else {
                assert(seq![chars@[i as int]] =~= chars@.subrange(i as int, i + 1));
                start = i;
                in_run = true;
            }
        }
        i += 1;
    }
    assert(chars@.take(chars@.len() as int) =~= chars@);
    if in_run {
        let ghost views = text_views(found@);
        let run = text.substring_char(start, i);
        found.push(run);
        assert(text_views(found@) =~= views.push(chars@.subrange(start as int, i as int)));
    }
    found
}

/// Splits a text into its fields.
pub fn split_fields<'a>(text: &'a str) -> (found: Vec<&'a str>)
    ensures
        text_views(found@) == fields(text@),
{
    split_runs(text, false)
}

/// Splits a text into its lines, leaving out the empty ones.
pub fn split_lines<'a>(text: &'a str) -> (found: Vec<&'a str>)
    ensures
        text_views(found@) == lines(text@),
{
    split_runs(text, true)
}

/// A text without the blanks at its two ends.
pub open spec fn trimmed(text: Seq<char>) -> Seq<char>
    decreases text.len(),
{
    if text.len() == 0 {
        text
    } else if is_blank(text[0]) {
        trimmed(text.drop_first())
    } else if is_blank(text.last()) {
        trimmed(text.drop_last())
    } else {
        text
    }
}

proof fn lemma_trimmed(text: Seq<char>, start: int, end: int)
    requires
        0 <= start <= end <= text.len(),
        forall|j: int| 0 <= j < start ==> is_blank(#[trigger] text[j]),
        forall|j: int| end <= j < text.len() ==> is_blank(#[trigger] text[j]),
        start < end ==> !is_blank(text[start]) && !is_blank(text[end - 1]),
        start == end ==> start == text.len(),
    ensures
        trimmed(text) == text.subrange(start, end),
    decreases text.len(),
{
    if text.len() == 0 {
        assert(text.subrange(start, end) =~= text);
    } else if is_blank(text[0]) {
        let rest = text.drop_first();
        assert forall|j: int| 0 <= j < start - 1 implies is_blank(#[trigger] rest[j]) by {
            assert(rest[j] == text[j + 1]);
        }
        assert forall|j: int| end - 1 <= j < rest.len() implies is_blank(#[trigger] rest[j]) by {
            assert(rest[j] == text[j + 1]);
        }
        lemma_trimmed(rest, start - 1, end - 1);
        assert(rest.subrange(start - 1, end - 1) =~= text.subrange(start, end));
    } else if is_blank(text.last()) {
        let rest = text.drop_last();
        assert forall|j: int| 0 <= j < start implies is_blank(#[trigger] rest[j]) by {
            assert(rest[j] == text[j]);
        }
        assert forall|j: int| end <= j < rest.len() implies is_blank(#[trigger] rest[j]) by {
            assert(rest[j] == text[j]);
        }
        lemma_trimmed(rest, start, end);
        assert(rest.subrange(start, end) =~= text.subrange(start, end));
    } else {
        assert(text.subrange(start, end) =~= text);
    }
}

/// Takes the blanks off the two ends of a text.
pub fn trim<'a>(text: &'a str) -> (inner: &'a str)
    ensures
        inner@ == trimmed(text@),
{
    let chars = chars_of(text);
    let mut start: usize = 0;
    while start < chars.len() && is_blank_char(chars[start])
        invariant
            start <= chars.len(),
            forall|j: int| 0 <= j < start ==> is_blank(#[trigger] chars@[j]),
        decreases chars.len() - start,
    {
        start += 1;
    }
    let mut end: usize = chars.len();
    while end > start && is_blank_char(chars[end - 1])
        invariant
            start <= end <= chars.len(),
            forall|j: int| end <= j < chars.len() ==> is_blank(#[trigger] chars@[j]),
        decreases end,
    {
        end -= 1;
    }
    proof {
        lemma_trimmed(chars@, start as int, end as int);
    }
    text.substring_char(start, end)
}

/// The place of the first `mark` in a text, if there is one.
pub open spec fn first_index_of(text: Seq<char>, mark: char) -> Option<int>
    decreases text.len(),
{
    if text.len() == 0 {
        None
    } else if first_index_of(text.drop_last(), mark) is Some {
        first_index_of(text.drop_last(), mark)
    } else if text.last() == mark {
        Some(text.len() - 1)
    } else {
        None
    }
}

/// `first_index_of` gives the first place at which the mark stands.
pub proof fn lemma_first_index_of(text: Seq<char>, mark: char)
    ensures
        match first_index_of(text, mark) {
            Some(at) => 0 <= at < text.len() && text[at] == mark && forall|j: int|
                0 <= j < at ==> text[j] != mark,
            None => forall|j: int| 0 <= j < text.len() ==> text[j] != mark,
        },
    decreases text.len(),
{
    if text.len() > 0 {
        let front = text.drop_last();
        lemma_first_index_of(front, mark);
        match first_index_of(front, mark) {
            Some(at) => {
                assert(text[at] == front[at]);
                assert forall|j: int| 0 <= j < at implies text[j] != mark by {
                    assert(text[j] == front[j]);
                }
            },
            None => {
                assert forall|j: int| 0 <= j < front.len() implies text[j] != mark by {
                    assert(text[j] == front[j]);
                }
            },
        }
    }
}

/// What stands before and after the first `mark` of a text; two empty texts if there is no
/// `mark` in it.
pub open spec fn parts_around(text: Seq<char>, mark: char) -> (Seq<char>, Seq<char>) {
    match first_index_of(text, mark) {
        Some(at) => (text.subrange(0, at), text.subrange(at + 1, text.len() as int)),
        None => (Seq::empty(), Seq::empty()),
    }
}

/// Cuts a text at its first `mark`.
pub fn split_around<'a>(text: &'a str, mark: char) -> (parts: (&'a str, &'a str))
    ensures
        (parts.0@, parts.1@) == parts_around(text@, mark),
{
    let chars = chars_of(text);
    let mut i: usize = 0;
    assert(chars@.take(0) =~= Seq::<char>::empty());
    while i < chars.len()
        invariant
            i <= chars.len(),
            chars@ == text@,
            first_index_of(chars@.take(i as int), mark) is None,
        decreases chars.len() - i,
    {
        proof {
            assert(chars@.take(i + 1).drop_last() =~= chars@.take(i as int));
        }
        if chars[i] == mark {
            proof {
                lemma_first_index_extends(chars@, mark, i as int);
            }
            let before = text.substring_char(0, i);
            let after = text.substring_char(i + 1, chars.len());
            return (before, after);
        }
        i += 1;
    }
    assert(chars@.take(chars@.len() as int) =~= chars@);
    let before = text.substring_char(0, 0);
    let after = text.substring_char(0, 0);
    assert(before@ =~= Seq::<char>::empty());
    (before, after)
}

proof fn lemma_first_index_extends(text: Seq<char>, mark: char, at: int)
    requires
        0 <= at < text.len(),
        text[at] == mark,
        first_index_of(text.take(at), mark) is None,
    ensures
        first_index_of(text, mark) == Some(at),
    decreases text.len() - at,
{
    assert(text.take(at + 1).drop_last() =~= text.take(at));
    assert(first_index_of(text.take(at + 1), mark) == Some(at));
    lemma_first_index_stays(text, mark, at, text.len() as int);
    assert(text.take(text.len() as int) =~= text);
}

proof fn lemma_first_index_stays(text: Seq<char>, mark: char, at: int, upto: int)
    requires
        0 <= at < upto <= text.len(),
        first_index_of(text.take(at + 1), mark) == Some(at),
    ensures
        first_index_of(text.take(upto), mark) == Some(at),
    decreases upto,
{
    if upto > at + 1 {
        lemma_first_index_stays(text, mark, at, upto - 1);
        assert(text.take(upto).drop_last() =~= text.take(upto - 1));
    }
}

} // verus!
