use monitoring_agent::common::notation::{parse_amount, parse_small_count};
use monitoring_agent::common::text::{
    chars_of, digit_of, is_blank_char, is_digit_char, same_text, split_around, split_fields,
    split_lines, trim,
};
use monitoring_agent::proc::ProcsMeminfo;

#[test]
fn chars_of_gives_every_character() {
    assert_eq!(chars_of("a.b"), vec!['a', '.', 'b']);
    assert_eq!(chars_of(""), Vec::<char>::new());
    assert_eq!(chars_of("\u{00e9}\u{4e2d}x"), vec!['\u{00e9}', '\u{4e2d}', 'x']);
}

#[test]
fn digits_are_the_ten_decimal_digits() {
    let digits = ['0', '1', '2', '3', '4', '5', '6', '7', '8', '9'];
    let mut value: u8 = 0;
    for digit in digits {
        assert!(is_digit_char(digit));
        assert_eq!(digit_of(digit), value);
        value += 1;
    }
    for other in ['a', ' ', '-', '.', '/', ':', '\u{0661}', '\u{ff11}'] {
        assert!(!is_digit_char(other));
    }
}

#[test]
fn blanks_are_space_tab_and_line_ends() {
    for blank in [' ', '\t', '\n', '\r'] {
        assert!(is_blank_char(blank));
    }
    for other in ['a', '0', '_', '\u{00a0}', '\u{000b}'] {
        assert!(!is_blank_char(other));
    }
}

#[test]
fn split_fields_gives_the_runs_between_blanks() {
    assert_eq!(split_fields("0.20 0.18 0.12 1/80 11206\n"), vec!["0.20", "0.18", "0.12", "1/80", "11206"]);
    assert_eq!(split_fields("  a \t b\r\nc  "), vec!["a", "b", "c"]);
    assert_eq!(split_fields("one"), vec!["one"]);
    assert_eq!(split_fields(""), Vec::<&str>::new());
    assert_eq!(split_fields(" \t\n"), Vec::<&str>::new());
    assert_eq!(split_fields("\u{00e9}t\u{00e9} \u{4e2d}\u{6587}"), vec!["\u{00e9}t\u{00e9}", "\u{4e2d}\u{6587}"]);
    assert_eq!(split_fields("a\u{00a0}b"), vec!["a\u{00a0}b"]);
}

#[test]
fn split_around_cuts_at_the_first_mark() {
    assert_eq!(split_around("1/80", '/'), ("1", "80"));
    assert_eq!(split_around("a/b/c", '/'), ("a", "b/c"));
    assert_eq!(split_around("/b", '/'), ("", "b"));
    assert_eq!(split_around("a/", '/'), ("a", ""));
    assert_eq!(split_around("/", '/'), ("", ""));
    assert_eq!(split_around("ab", '/'), ("", ""));
    assert_eq!(split_around("", '/'), ("", ""));
    assert_eq!(split_around("\u{00e9}:\u{4e2d}", ':'), ("\u{00e9}", "\u{4e2d}"));
}

#[test]
fn parse_amount_reads_up_to_the_largest_u64() {
    assert_eq!(parse_amount("0"), Some(0));
    assert_eq!(parse_amount("16318460"), Some(16_318_460));
    assert_eq!(parse_amount("18446744073709551615"), Some(u64::MAX));
    assert_eq!(parse_amount("18446744073709551616"), None);
    assert_eq!(parse_amount("000018446744073709551615"), Some(u64::MAX));
    assert_eq!(parse_amount("99999999999999999999999999999"), None);
    assert_eq!(parse_amount(""), None);
    assert_eq!(parse_amount("12kB"), None);
    assert_eq!(parse_amount("-12"), None);
}

#[test]
fn meminfo_parse_reads_the_counters_by_name() {
    let table = "MemTotal:       16318460 kB\nMemFree:         1234567 kB\nMemAvailable:    9876543 kB\nBuffers:          100000 kB\nSwapCached:            0 kB\nSwapTotal:       2097148 kB\nSwapFree:        2097000 kB\n";
    assert_eq!(
        ProcsMeminfo::parse(table),
        ProcsMeminfo::new(
            Some(16_318_460),
            Some(1_234_567),
            Some(9_876_543),
            Some(2_097_148),
            Some(2_097_000)
        )
    );
}

#[test]
fn meminfo_parse_leaves_out_what_is_missing_or_no_number() {
    assert_eq!(ProcsMeminfo::parse(""), ProcsMeminfo::new(None, None, None, None, None));
    let table = "MemTotal: lots\nMemFree:\nSwapTotal: 5 kB\nSwapFree:";
    assert_eq!(ProcsMeminfo::parse(table), ProcsMeminfo::new(None, None, None, Some(5), None));
    let table = "MemTotal 7 kB\nmemfree: 8 kB\nMemAvailable: 18446744073709551616 kB\nMemTotal: 1\nMemTotal: 2";
    assert_eq!(ProcsMeminfo::parse(table), ProcsMeminfo::new(Some(1), None, None, None, None));
}

#[test]
fn split_lines_gives_the_lines_that_are_not_empty() {
    assert_eq!(split_lines("a b\nc\n\n\nd e f\r\n"), vec!["a b", "c", "d e f"]);
    assert_eq!(split_lines("one line"), vec!["one line"]);
    assert_eq!(split_lines("\n\n"), Vec::<&str>::new());
    assert_eq!(split_lines(""), Vec::<&str>::new());
    assert_eq!(split_lines(" \n\t\n"), vec![" ", "\t"]);
}

#[test]
fn trim_takes_the_blanks_off_both_ends() {
    assert_eq!(trim("  a b \t"), "a b");
    assert_eq!(trim("a"), "a");
    assert_eq!(trim(""), "");
    assert_eq!(trim(" \t\r\n "), "");
    assert_eq!(trim("\tmodel name"), "model name");
    assert_eq!(trim(" \u{00e9}t\u{00e9} "), "\u{00e9}t\u{00e9}");
    assert_eq!(trim("\u{00a0}a\u{00a0}"), "\u{00a0}a\u{00a0}");
}

#[test]
fn same_text_compares_character_by_character() {
    assert!(same_text("processor", "processor"));
    assert!(same_text("", ""));
    assert!(!same_text("processor", "Processor"));
    assert!(!same_text("model", "model name"));
    assert!(!same_text("a", ""));
}

#[test]
fn parse_small_count_reads_up_to_255() {
    assert_eq!(parse_small_count("0"), Some(0));
    assert_eq!(parse_small_count("12"), Some(12));
    assert_eq!(parse_small_count("255"), Some(255));
    assert_eq!(parse_small_count("256"), None);
    assert_eq!(parse_small_count(""), None);
    assert_eq!(parse_small_count("1 "), None);
}
