use boost_sampler::classify::ParseResult;
use boost_sampler::decimal::{append_decimal, parse_decimal, push_decimal};
use boost_sampler::persist::{
    read_recording_file, recording_file_content, recording_file_path, END_KEY, START_KEY,
};
use boost_sampler::recording::{Recording, SavedRecording, Window};

fn decimal(n: u128) -> String {
    let mut out = Vec::new();
    push_decimal(&mut out, n);
    String::from_utf8(out).unwrap()
}

fn window(start: u128, end: u128, enabled: bool, counts: (u128, u128, u128)) -> Window {
    Window { start, end, enabled, success: counts.0, failure: counts.1, unparsable: counts.2 }
}

fn windows_of(saved: &SavedRecording) -> Window {
    window(
        saved.start_time(),
        saved.end_time(),
        saved.enabled(),
        (saved.successful_allocations(), saved.failed_allocations(), saved.unparsed_allocations()),
    )
}

#[test]
fn new_recording_has_counted_nothing() {
    let r = Recording::new(1700000000000, true);
    assert_eq!(r.start_time, 1700000000000);
    assert!(r.enabled);
    assert_eq!(r.successful_allocations, 0);
    assert_eq!(r.failed_allocations, 0);
    assert_eq!(r.unparsed_allocations, 0);
    let r = Recording::new(0, false);
    assert!(!r.enabled);
}

#[test]
fn record_raises_one_counter_by_one() {
    let mut r = Recording::new(5, false);
    r.record(ParseResult::Successful);
    assert_eq!((r.successful_allocations, r.failed_allocations, r.unparsed_allocations), (1, 0, 0));
    r.record(ParseResult::Failed);
    assert_eq!((r.successful_allocations, r.failed_allocations, r.unparsed_allocations), (1, 1, 0));
    r.record(ParseResult::Unparsable);
    assert_eq!((r.successful_allocations, r.failed_allocations, r.unparsed_allocations), (1, 1, 1));
    r.record(ParseResult::Unparsable);
    assert_eq!((r.successful_allocations, r.failed_allocations, r.unparsed_allocations), (1, 1, 2));
    assert_eq!(r.start_time, 5);
    assert!(!r.enabled);
}

#[test]
fn counters_add_up_to_the_number_of_lines() {
    let outcomes = [
        ParseResult::Successful,
        ParseResult::Unparsable,
        ParseResult::Failed,
        ParseResult::Successful,
        ParseResult::Successful,
        ParseResult::Unparsable,
        ParseResult::Failed,
    ];
    let mut r = Recording::new(0, true);
    let mut fed: u128 = 0;
    for round in 0..100 {
        for outcome in outcomes.iter() {
            r.record(*outcome);
            fed += 1;
            assert_eq!(
                r.successful_allocations + r.failed_allocations + r.unparsed_allocations,
                fed,
                "round {}",
                round
            );
        }
    }
    assert_eq!(r.successful_allocations, 300);
    assert_eq!(r.failed_allocations, 200);
    assert_eq!(r.unparsed_allocations, 200);
}

#[test]
fn full_counter_stays() {
    let mut r = Recording::new(0, true);
    r.failed_allocations = u128::MAX;
    r.record(ParseResult::Failed);
    assert_eq!(r.failed_allocations, u128::MAX);
    r.record(ParseResult::Successful);
    assert_eq!(r.successful_allocations, 1);
    assert_eq!(r.unparsed_allocations, 0);
}

#[test]
fn finalize_keeps_the_counters() {
    let mut r = Recording::new(1000, true);
    r.record(ParseResult::Successful);
    r.record(ParseResult::Successful);
    r.record(ParseResult::Failed);
    let saved = r.finalize(21000);
    assert_eq!(windows_of(&saved), window(1000, 21000, true, (2, 1, 0)));
}

#[test]
fn end_never_lies_before_start() {
    let saved = Recording::new(1000, false).finalize(999);
    assert_eq!(saved.start_time(), 1000);
    assert_eq!(saved.end_time(), 1000);
    let saved = Recording::new(1000, false).finalize(1000);
    assert_eq!(saved.end_time(), 1000);
    let saved = Recording::new(1000, false).finalize(0);
    assert_eq!(saved.end_time(), 1000);
    let saved = Recording::new(0, false).finalize(u128::MAX);
    assert_eq!(saved.end_time(), u128::MAX);
}

#[test]
fn from_window_asks_for_order() {
    let w = window(10, 20, true, (1, 2, 3));
    assert_eq!(windows_of(&SavedRecording::from_window(w).unwrap()), w);
    let w = window(20, 20, false, (0, 0, 0));
    assert_eq!(windows_of(&SavedRecording::from_window(w).unwrap()), w);
    assert_eq!(SavedRecording::from_window(window(21, 20, true, (1, 2, 3))), None);
}

#[test]
fn file_content_has_six_lines_in_order() {
    let mut r = Recording::new(1700000000000, true);
    for _ in 0..12 {
        r.record(ParseResult::Successful);
    }
    for _ in 0..3 {
        r.record(ParseResult::Failed);
    }
    r.record(ParseResult::Unparsable);
    let content = recording_file_content(&r.finalize(1700000020000));
    assert_eq!(
        String::from_utf8(content).unwrap(),
        "start:1700000000000\nend:1700000020000\nenabled:true\nsuccess:12\nfailure:3\nunparsable:1\n"
    );
}

#[test]
fn file_content_of_an_empty_window() {
    let content = recording_file_content(&Recording::new(0, false).finalize(0));
    assert_eq!(
        String::from_utf8(content).unwrap(),
        "start:0\nend:0\nenabled:false\nsuccess:0\nfailure:0\nunparsable:0\n"
    );
}

#[test]
fn file_content_with_the_largest_numbers() {
    let w = window(u128::MAX, u128::MAX, true, (u128::MAX, u128::MAX, u128::MAX));
    let content = recording_file_content(&SavedRecording::from_window(w).unwrap());
    let max = "340282366920938463463374607431768211455";
    assert_eq!(
        String::from_utf8(content).unwrap(),
        format!(
            "start:{}\nend:{}\nenabled:true\nsuccess:{}\nfailure:{}\nunparsable:{}\n",
            max, max, max, max, max
        )
    );
}

#[test]
fn file_content_reads_back() {
    let cases = [
        window(0, 0, false, (0, 0, 0)),
        window(1700000000000, 1700000020000, true, (12, 3, 1)),
        window(1, u128::MAX, false, (u128::MAX, 0, 10)),
        window(u128::MAX, u128::MAX, true, (u128::MAX, u128::MAX, u128::MAX)),
        window(9, 10, true, (99, 100, 101)),
    ];
    for w in cases {
        let saved = SavedRecording::from_window(w).unwrap();
        let content = recording_file_content(&saved);
        let back = read_recording_file(&content).expect("what was written is read");
        assert_eq!(back, saved);
        assert_eq!(windows_of(&back), w);
        assert!(back.end_time() >= back.start_time());
    }
}

#[test]
fn recording_reads_back_after_counting() {
    let mut r = Recording::new(1234, true);
    for i in 0..1000u32 {
        r.record(match i % 3 {
            0 => ParseResult::Successful,
            1 => ParseResult::Failed,
            _ => ParseResult::Unparsable,
        });
    }
    let saved = r.finalize(5678);
    let back = read_recording_file(&recording_file_content(&saved)).unwrap();
    assert_eq!(windows_of(&back), window(1234, 5678, true, (334, 333, 333)));
}

#[test]
fn read_recording_file_reads_a_file() {
    let text = b"start:10\nend:20\nenabled:false\nsuccess:1\nfailure:2\nunparsable:3\n";
    let saved = read_recording_file(text).unwrap();
    assert_eq!(windows_of(&saved), window(10, 20, false, (1, 2, 3)));
}

#[test]
fn read_recording_file_refuses_other_text() {
    let refused: [&[u8]; 19] = [
        b"",
        b"start:10\n",
        // the last line end is missing
        b"start:10\nend:20\nenabled:false\nsuccess:1\nfailure:2\nunparsable:3",
        // something follows
        b"start:10\nend:20\nenabled:false\nsuccess:1\nfailure:2\nunparsable:3\n\n",
        b"start:10\nend:20\nenabled:false\nsuccess:1\nfailure:2\nunparsable:3\nmore:1\n",
        // the end lies before the start
        b"start:21\nend:20\nenabled:false\nsuccess:1\nfailure:2\nunparsable:3\n",
        // lines out of order
        b"end:20\nstart:10\nenabled:false\nsuccess:1\nfailure:2\nunparsable:3\n",
        b"start:10\nend:20\nenabled:false\nfailure:2\nsuccess:1\nunparsable:3\n",
        // a line is missing
        b"start:10\nend:20\nsuccess:1\nfailure:2\nunparsable:3\n",
        // numbers that are no decimal text
        b"start:\nend:20\nenabled:false\nsuccess:1\nfailure:2\nunparsable:3\n",
        b"start:010\nend:20\nenabled:false\nsuccess:1\nfailure:2\nunparsable:3\n",
        b"start:+10\nend:20\nenabled:false\nsuccess:1\nfailure:2\nunparsable:3\n",
        b"start:10 \nend:20\nenabled:false\nsuccess:1\nfailure:2\nunparsable:3\n",
        b"start:1a\nend:20\nenabled:false\nsuccess:1\nfailure:2\nunparsable:3\n",
        b"start:10\nend:340282366920938463463374607431768211456\nenabled:false\nsuccess:1\nfailure:2\nunparsable:3\n",
        // a boost state that is neither
        b"start:10\nend:20\nenabled:yes\nsuccess:1\nfailure:2\nunparsable:3\n",
        b"start:10\nend:20\nenabled:True\nsuccess:1\nfailure:2\nunparsable:3\n",
        b"start:10\nend:20\nenabled:\nsuccess:1\nfailure:2\nunparsable:3\n",
        // another key
        b"begin:10\nend:20\nenabled:false\nsuccess:1\nfailure:2\nunparsable:3\n",
    ];
    for text in refused {
        assert_eq!(read_recording_file(text), None, "{:?}", String::from_utf8_lossy(text));
    }
}

#[test]
fn read_recording_file_takes_the_largest_number() {
    let text = b"start:0\nend:340282366920938463463374607431768211455\nenabled:true\nsuccess:0\nfailure:0\nunparsable:0\n";
    assert_eq!(read_recording_file(text).unwrap().end_time(), u128::MAX);
}

#[test]
fn file_path_is_directory_and_end_time() {
    let saved = Recording::new(1700000000000, true).finalize(1700000020000);
    assert_eq!(recording_file_path("/var/lib/sampler", &saved), "/var/lib/sampler/1700000020000");
    assert_eq!(recording_file_path("", &saved), "/1700000020000");
    assert_eq!(recording_file_path("relative/dir/", &saved), "relative/dir//1700000020000");
    assert_eq!(recording_file_path("/daten/größe", &saved), "/daten/größe/1700000020000");
    let saved = Recording::new(0, true).finalize(0);
    assert_eq!(recording_file_path("/tmp", &saved), "/tmp/0");
}

#[test]
fn file_name_follows_the_end_that_is_written() {
    let saved = Recording::new(2000, true).finalize(1500);
    assert_eq!(recording_file_path("d", &saved), "d/2000");
    let content = String::from_utf8(recording_file_content(&saved)).unwrap();
    assert!(content.starts_with("start:2000\nend:2000\n"));
}

#[test]
fn push_decimal_writes_the_digits() {
    assert_eq!(decimal(0), "0");
    assert_eq!(decimal(7), "7");
    assert_eq!(decimal(9), "9");
    assert_eq!(decimal(10), "10");
    assert_eq!(decimal(99), "99");
    assert_eq!(decimal(100), "100");
    assert_eq!(decimal(1700000000000), "1700000000000");
    assert_eq!(decimal(u64::MAX as u128), "18446744073709551615");
    assert_eq!(decimal(u128::MAX), "340282366920938463463374607431768211455");
}

#[test]
fn push_decimal_appends() {
    let mut out = b"end:".to_vec();
    push_decimal(&mut out, 42);
    assert_eq!(out, b"end:42");
}

#[test]
fn append_decimal_appends() {
    let mut out = String::from("n=");
    append_decimal(&mut out, 0);
    assert_eq!(out, "n=0");
    append_decimal(&mut out, 1234567890);
    assert_eq!(out, "n=01234567890");
    let mut out = String::new();
    append_decimal(&mut out, u128::MAX);
    assert_eq!(out, "340282366920938463463374607431768211455");
}

#[test]
fn parse_decimal_reads_the_digits() {
    assert_eq!(parse_decimal(b"0"), Some(0));
    assert_eq!(parse_decimal(b"7"), Some(7));
    assert_eq!(parse_decimal(b"10"), Some(10));
    assert_eq!(parse_decimal(b"1700000000000"), Some(1700000000000));
    assert_eq!(parse_decimal(b"340282366920938463463374607431768211455"), Some(u128::MAX));
    assert_eq!(parse_decimal(b"340282366920938463463374607431768211456"), None);
    assert_eq!(parse_decimal(b"3402823669209384634633746074317682114550"), None);
    assert_eq!(parse_decimal(b""), None);
    assert_eq!(parse_decimal(b"00"), None);
    assert_eq!(parse_decimal(b"01"), None);
    assert_eq!(parse_decimal(b"+1"), None);
    assert_eq!(parse_decimal(b"-1"), None);
    assert_eq!(parse_decimal(b"1 "), None);
    assert_eq!(parse_decimal(b" 1"), None);
    assert_eq!(parse_decimal(b"1a"), None);
    assert_eq!(parse_decimal(b"1_000"), None);
}

#[test]
fn decimal_text_reads_back() {
    let numbers = [0u128, 1, 9, 10, 11, 99, 100, 101, 12345, u64::MAX as u128, u128::MAX - 1, u128::MAX];
    for n in numbers {
        assert_eq!(parse_decimal(decimal(n).as_bytes()), Some(n));
        assert_eq!(decimal(n), n.to_string());
    }
}

#[test]
fn keys_are_as_in_the_file() {
    assert_eq!(START_KEY, "start:");
    assert_eq!(END_KEY, "end:");
}
