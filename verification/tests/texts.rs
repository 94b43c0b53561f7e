use goose_tasks::duration::{
    examine_duration, format_duration, parse_duration, trim, DurationReading,
};
use goose_tasks::lines::{lines, tail_lines, LineCutter};
use goose_tasks::output::{format_output, plain_output, PatternWatch};
use goose_tasks::process::read_from_position;
use goose_tasks::text::{chars_of, contains_text, decimal, join, signed_decimal};
use goose_tasks::time::Span;

#[test]
fn durations_are_read() {
    assert_eq!(parse_duration("30s"), Ok(Span::from_secs(30)));
    assert_eq!(parse_duration("5m"), Ok(Span::from_secs(300)));
    assert_eq!(parse_duration("2h"), Ok(Span::from_secs(7200)));
    assert_eq!(parse_duration(" 1h30m "), Ok(Span::from_secs(5400)));
    assert_eq!(parse_duration("45"), Ok(Span::from_secs(45)));
    assert_eq!(parse_duration("1m5"), Ok(Span::from_secs(65)));
    assert_eq!(parse_duration(" 1m"), Ok(Span::from_secs(60)));
    assert_eq!(parse_duration("5s "), Ok(Span::from_secs(5)));
    assert_eq!(parse_duration(" 1m5s "), Ok(Span::from_secs(65)));
}

#[test]
fn wrong_durations_are_refused() {
    assert_eq!(parse_duration("  "), Err("Empty duration string".to_string()));
    assert_eq!(parse_duration("s"), Err("Invalid duration: s".to_string()));
    assert_eq!(
        parse_duration(" 99999999999999999999s"),
        Err("Invalid duration: 99999999999999999999s".to_string())
    );
    assert_eq!(parse_duration("3d"), Err("Unknown duration unit 'd' in: 3d".to_string()));
    assert_eq!(examine_duration("18446744073709551615h"), DurationReading::TooLong);
    assert_eq!(examine_duration("18446744073709551615s"), DurationReading::Seconds(u64::MAX));
}

#[test]
fn durations_are_written() {
    assert_eq!(format_duration(Span::from_millis(59_999)), "59s");
    assert_eq!(format_duration(Span::from_secs(61)), "1m 1s");
    assert_eq!(format_duration(Span::from_secs(3599)), "59m 59s");
    assert_eq!(format_duration(Span::from_secs(7325)), "2h 2m");
}

#[test]
fn white_space_is_trimmed() {
    let cs: String = trim("\u{3000}\t a b \n").into_iter().collect();
    assert_eq!(cs, "a b");
    assert!(trim(" \u{a0} ").is_empty());
}

#[test]
fn last_lines_are_kept() {
    assert_eq!(tail_lines("line1\nline2\nline3\n", 2), "line2\nline3");
    assert_eq!(tail_lines("line1\nline2\n", 2), "line1\nline2\n");
    assert_eq!(tail_lines("a\r\nb\nc", 0), "");
    assert_eq!(lines("a\r\nb\n\nc"), vec!["a", "b", "", "c"]);
    assert!(lines("").is_empty());
}

#[test]
fn lines_are_cut_wherever_chunks_end() {
    let mut cutter = LineCutter::new();
    assert!(cutter.feed("hel").is_empty());
    assert_eq!(cutter.feed("lo\r\nwor"), vec!["hello"]);
    assert_eq!(cutter.feed("ld\n\nx"), vec!["world", ""]);
    assert_eq!(cutter.feed("\n"), vec!["x"]);
}

#[test]
fn bytes_of_a_terminal_are_cut_into_lines() {
    let mut cutter = LineCutter::new();
    assert_eq!(cutter.feed_bytes("grün\nb".as_bytes()), vec!["grün".to_string()]);
    assert_eq!(cutter.feed_bytes(b"\xff\nrest"), vec!["b\u{fffd}".to_string()]);
    assert!(cutter.feed_bytes(b"").is_empty());
    assert_eq!(cutter.feed("\n"), vec!["rest".to_string()]);
}

#[test]
fn output_is_shown_in_sections() {
    assert_eq!(
        format_output("out", "", "/tmp/o", &Some("/tmp/e".to_string())),
        "── stdout ──\nout\n\n── stderr ──\n(empty)\n\n── files ──\nstdout: /tmp/o\nstderr: /tmp/e\n"
    );
    assert_eq!(
        format_output("", "bad\n", "/tmp/o", &None),
        "── stdout ──\n(empty)\n\n── stderr ──\nbad\n\n── files ──\nstdout: /tmp/o\n"
    );
}

#[test]
fn escape_sequences_are_stripped_on_demand() {
    assert_eq!(plain_output("\u{1b}[31mred\u{1b}[0m", true), "red");
    assert_eq!(plain_output("\u{1b}[31mred\u{1b}[0m", false), "\u{1b}[31mred\u{1b}[0m");
}

#[test]
fn logs_are_read_from_a_position() {
    assert_eq!(read_from_position(6, 11, b"world"), ("world".to_string(), 11));
    assert_eq!(read_from_position(11, 11, b""), (String::new(), 11));
    assert_eq!(read_from_position(12, 11, b""), (String::new(), 12));
    assert_eq!(read_from_position(0, 2, &[0xff, b'a']), ("\u{fffd}a".to_string(), 2));
}

#[test]
fn pattern_is_told_once() {
    let mut watch = PatternWatch::new(Some("ready".to_string()));
    assert!(watch.observe("starting").is_none());
    assert_eq!(watch.observe("server ready").as_deref(), Some("ready"));
    assert!(watch.observe("ready again").is_none());
    assert!(watch.fired);
    let mut none = PatternWatch::new(None);
    assert!(none.observe("ready").is_none());
}

#[test]
fn small_texts() {
    assert!(contains_text("abcabd", "abd"));
    assert!(contains_text("abc", ""));
    assert!(!contains_text("ab", "abc"));
    assert_eq!(decimal(0), "0");
    assert_eq!(decimal(u64::MAX), "18446744073709551615");
    assert_eq!(signed_decimal(-1), "-1");
    assert_eq!(signed_decimal(i32::MIN), "-2147483648");
    assert_eq!(join(&vec!["a".to_string(), "b".to_string()], ", "), "a, b");
    assert_eq!(join(&Vec::new(), ", "), "");
    assert_eq!(chars_of("aµ"), vec!['a', 'µ']);
}

#[test]
fn spans_add_and_split() {
    let d = Span::from_parts(3, 250_000_000);
    assert_eq!(d, Span::from_millis(3250));
    assert_eq!(d.parts(), (3, 250_000_000));
    assert_eq!(d.plus(Span { nanos: u128::MAX }), Span { nanos: u128::MAX });
    assert_eq!(Span { nanos: u128::MAX }.parts().0, u64::MAX);
}

#[test]
fn clock_spans_are_exact() {
    let clock = goose_tasks::time::Clock::start();
    let earlier = clock.now();
    let later = clock.now();
    assert!(later.has_reached(earlier));
    let passed = later.duration_since(earlier);
    let (secs, nanos) = passed.parts();
    assert_eq!(Span::from_parts(secs, nanos), passed);
    let last = goose_tasks::time::Moment { since_start: Span::from_parts(u64::MAX, 999_999_999) };
    assert_eq!(last.duration_since(earlier).plus(earlier.since_start), last.since_start);
    assert_eq!(last.since_start.parts(), (u64::MAX, 999_999_999));
}
