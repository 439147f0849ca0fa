use ratewatch::lines::LineCounter;
use ratewatch::numbers::{delta_rate, Differentiator, LineOutcome};
use ratewatch::paths::{check_metadata, is_stdin_path, FileCheck, MetadataOutcome};
use ratewatch::rate::{line_rate, Rate};
use ratewatch::text::{render_lines_report, render_numbers_report, render_rate};
use ratewatch::timing::{elapsed_nanos, Timestamp};
use ratewatch::value::{parse_value, Value};

fn ts(nanos: u64) -> Timestamp {
    Timestamp { nanos }
}

#[test]
fn elapsed_is_difference() {
    assert_eq!(elapsed_nanos(ts(250), ts(1_250)), 1_000);
    assert_eq!(elapsed_nanos(ts(7), ts(7)), 0);
}

#[test]
fn lines_rate_over_synthetic_run() {
    // Three lines over two seconds: 1.5 lines/sec.
    let mut c = LineCounter::new();
    c.observe(ts(0));
    c.observe(ts(1_000_000_000));
    c.observe(ts(2_000_000_000));
    assert_eq!(c.count, 3);
    let r = c.finish().unwrap();
    assert_eq!(r, Rate::Finite { negative: false, nanos_per_sec: 1_500_000_000 });
    assert_eq!(render_lines_report(&r), b"1.500000000 lines/sec".to_vec());
}

#[test]
fn lines_skipped_reads_do_not_count() {
    // A read error never reaches observe: only the good lines count.
    let mut c = LineCounter::new();
    c.observe(ts(1_000));
    // a failing read happens here: no observe call
    c.observe(ts(2_001_000));
    assert_eq!(c.count, 2);
    let r = c.finish().unwrap();
    // 2 lines over 2 ms: 1000 lines/sec.
    assert_eq!(r, Rate::Finite { negative: false, nanos_per_sec: 1_000_000_000_000 });
    assert_eq!(render_lines_report(&r), b"1000 lines/sec".to_vec());
}

#[test]
fn lines_empty_input_prints_nothing() {
    let c = LineCounter::new();
    assert!(c.finish().is_none());
}

#[test]
fn lines_single_line_yields_sentinel() {
    let mut c = LineCounter::new();
    c.observe(ts(42));
    let r = c.finish().unwrap();
    assert_eq!(r, Rate::Infinite);
    assert_eq!(render_lines_report(&r), b"inf lines/sec".to_vec());
}

#[test]
fn lines_rerun_same_clock_same_report() {
    let stamps = [5, 400_000_005, 900_000_005];
    let mut first: Option<Vec<u8>> = None;
    for _ in 0..2 {
        let mut c = LineCounter::new();
        for &t in stamps.iter() {
            c.observe(ts(t));
        }
        let out = render_lines_report(&c.finish().unwrap());
        match &first {
            None => first = Some(out),
            Some(prev) => assert_eq!(&out, prev),
        }
    }
}

#[test]
fn lines_shifted_clock_same_report() {
    let mut a = LineCounter::new();
    let mut b = LineCounter::new();
    for &t in [10, 600_000_010, 1_300_000_010].iter() {
        a.observe(ts(t));
        b.observe(ts(t + 77_000_000_000));
    }
    assert_eq!(a.finish().unwrap(), b.finish().unwrap());
}

#[test]
fn numbers_one_then_three_over_one_second() {
    let mut d = Differentiator::new();
    assert_eq!(d.observe_line(b"1\n", ts(0)), LineOutcome::Primed);
    let out = d.observe_line(b"3\n", ts(1_000_000_000));
    match out {
        LineOutcome::Measured(r) => {
            assert_eq!(r, Rate::Finite { negative: false, nanos_per_sec: 2_000_000_000 });
            assert_eq!(render_numbers_report(&r), b"2 1/s".to_vec());
        }
        _ => panic!("expected a measured rate"),
    }
}

#[test]
fn numbers_non_numeric_line_is_skipped() {
    let mut d = Differentiator::new();
    assert_eq!(d.observe_line(b"1\n", ts(0)), LineOutcome::Primed);
    assert_eq!(d.observe_line(b"oops\n", ts(500_000_000)), LineOutcome::NotNumeric);
    // the bad line neither produced output nor disturbed the stored state
    let out = d.observe_line(b"3\n", ts(1_000_000_000));
    match out {
        LineOutcome::Measured(r) => {
            assert_eq!(r, Rate::Finite { negative: false, nanos_per_sec: 2_000_000_000 });
        }
        _ => panic!("expected a measured rate"),
    }
}

#[test]
fn numbers_identical_lines_same_instant_yield_sentinel() {
    let mut d = Differentiator::new();
    assert_eq!(d.observe_line(b"5\n", ts(900)), LineOutcome::Primed);
    let out = d.observe_line(b"5\n", ts(900));
    assert_eq!(out, LineOutcome::Measured(Rate::Infinite));
    assert_eq!(render_numbers_report(&Rate::Infinite), b"inf 1/s".to_vec());
}

#[test]
fn numbers_falling_values_give_negative_rate() {
    let mut d = Differentiator::new();
    d.observe_line(b"3\n", ts(0));
    let out = d.observe_line(b"1\n", ts(1_000_000_000));
    match out {
        LineOutcome::Measured(r) => {
            assert_eq!(r, Rate::Finite { negative: true, nanos_per_sec: 2_000_000_000 });
            assert_eq!(render_numbers_report(&r), b"-2 1/s".to_vec());
        }
        _ => panic!("expected a measured rate"),
    }
}

#[test]
fn numbers_line_without_newline_parses_too() {
    let mut d = Differentiator::new();
    assert_eq!(d.observe_line(b"2.5", ts(1)), LineOutcome::Primed);
    assert_eq!(d.previous_value, Some(Value { negative: false, mag_nanos: 2_500_000_000 }));
}

#[test]
fn delta_rate_fractional_gap() {
    // from 1.25 to 2.00 over half a second: 1.5 per second
    let a = Value { negative: false, mag_nanos: 1_250_000_000 };
    let b = Value { negative: false, mag_nanos: 2_000_000_000 };
    let r = delta_rate(&a, &b, 500_000_000);
    assert_eq!(r, Rate::Finite { negative: false, nanos_per_sec: 1_500_000_000 });
    assert_eq!(render_rate(&r), b"1.500000000".to_vec());
}

#[test]
fn delta_rate_across_zero() {
    // from -1 to 1 over one second: 2 per second
    let a = Value { negative: true, mag_nanos: 1_000_000_000 };
    let b = Value { negative: false, mag_nanos: 1_000_000_000 };
    let r = delta_rate(&a, &b, 1_000_000_000);
    assert_eq!(r, Rate::Finite { negative: false, nanos_per_sec: 2_000_000_000 });
}

#[test]
fn parse_plain_integers() {
    assert_eq!(parse_value(b"1"), Some(Value { negative: false, mag_nanos: 1_000_000_000 }));
    assert_eq!(parse_value(b"0"), Some(Value { negative: false, mag_nanos: 0 }));
    assert_eq!(parse_value(b"007"), Some(Value { negative: false, mag_nanos: 7_000_000_000 }));
    assert_eq!(
        parse_value(b"+42"),
        Some(Value { negative: false, mag_nanos: 42_000_000_000 })
    );
    assert_eq!(
        parse_value(b"-42"),
        Some(Value { negative: true, mag_nanos: 42_000_000_000 })
    );
}

#[test]
fn parse_fractions() {
    assert_eq!(parse_value(b"2.5"), Some(Value { negative: false, mag_nanos: 2_500_000_000 }));
    assert_eq!(parse_value(b".5"), Some(Value { negative: false, mag_nanos: 500_000_000 }));
    assert_eq!(parse_value(b"5."), Some(Value { negative: false, mag_nanos: 5_000_000_000 }));
    assert_eq!(
        parse_value(b"-0.25"),
        Some(Value { negative: true, mag_nanos: 250_000_000 })
    );
    assert_eq!(
        parse_value(b"0.000000001"),
        Some(Value { negative: false, mag_nanos: 1 })
    );
}

#[test]
fn parse_truncates_past_ninth_fraction_digit() {
    assert_eq!(
        parse_value(b"0.1234567891"),
        Some(Value { negative: false, mag_nanos: 123_456_789 })
    );
}

#[test]
fn parse_negative_zero_is_canonical_zero() {
    assert_eq!(parse_value(b"-0"), Some(Value { negative: false, mag_nanos: 0 }));
    assert_eq!(parse_value(b"-0.0"), Some(Value { negative: false, mag_nanos: 0 }));
}

#[test]
fn parse_rejects_malformed_input() {
    assert_eq!(parse_value(b""), None);
    assert_eq!(parse_value(b"-"), None);
    assert_eq!(parse_value(b"+"), None);
    assert_eq!(parse_value(b"."), None);
    assert_eq!(parse_value(b"-."), None);
    assert_eq!(parse_value(b"12a"), None);
    assert_eq!(parse_value(b"a12"), None);
    assert_eq!(parse_value(b"1.2.3"), None);
    assert_eq!(parse_value(b"1e5"), None);
    assert_eq!(parse_value(b" 1"), None);
    assert_eq!(parse_value(b"1 "), None);
}

#[test]
fn parse_range_limits() {
    // eighteen integer digits are the most that fit
    assert_eq!(
        parse_value(b"999999999999999999"),
        Some(Value { negative: false, mag_nanos: 999_999_999_999_999_999_000_000_000 })
    );
    assert_eq!(parse_value(b"1000000000000000000"), None);
    // leading zeros do not count against the limit
    assert_eq!(
        parse_value(b"0000000000000000000001"),
        Some(Value { negative: false, mag_nanos: 1_000_000_000 })
    );
}

#[test]
fn line_rate_zero_duration_is_sentinel() {
    assert_eq!(line_rate(1, 0), Rate::Infinite);
    assert_eq!(line_rate(0, 0), Rate::Infinite);
}

#[test]
fn line_rate_exact_quotient() {
    // 7 lines over 3.5 seconds: 2 lines/sec
    assert_eq!(
        line_rate(7, 3_500_000_000),
        Rate::Finite { negative: false, nanos_per_sec: 2_000_000_000 }
    );
}

#[test]
fn render_whole_rates_without_fraction() {
    let r = Rate::Finite { negative: false, nanos_per_sec: 3_000_000_000 };
    assert_eq!(render_rate(&r), b"3".to_vec());
    let z = Rate::Finite { negative: false, nanos_per_sec: 0 };
    assert_eq!(render_rate(&z), b"0".to_vec());
}

#[test]
fn render_pads_fraction_to_nine_digits() {
    let r = Rate::Finite { negative: false, nanos_per_sec: 10_000_000_001 };
    assert_eq!(render_rate(&r), b"10.000000001".to_vec());
    let s = Rate::Finite { negative: true, nanos_per_sec: 123_456_789 };
    assert_eq!(render_rate(&s), b"-0.123456789".to_vec());
}

#[test]
fn stdin_path_is_single_dash() {
    assert!(is_stdin_path(b"-"));
    assert!(!is_stdin_path(b""));
    assert!(!is_stdin_path(b"--"));
    assert!(!is_stdin_path(b"data.txt"));
}

#[test]
fn directory_argument_fails_validation() {
    // a directory exists but is not a regular file
    let verdict = check_metadata(&MetadataOutcome::Found { is_file: false });
    assert_eq!(verdict, FileCheck::NotAFile);
    assert_ne!(verdict, FileCheck::Usable);
}

#[test]
fn file_argument_verdicts() {
    assert_eq!(
        check_metadata(&MetadataOutcome::Found { is_file: true }),
        FileCheck::Usable
    );
    assert_eq!(check_metadata(&MetadataOutcome::NotFound), FileCheck::NotFound);
    assert_eq!(check_metadata(&MetadataOutcome::Unreadable), FileCheck::Unreadable);
}
