use wcr::Config;
use wcr::ConfigError;
use wcr::DecodingError;
use wcr::FileInfo;
use wcr::RunOutput;
use wcr::SourceOutcome;
use wcr::count;
use wcr::format_field;
use wcr::resolve_config;
use wcr::run;

#[test]
fn test_count() {
    let text = "I don't want the world. I just want your half.\r\n";
    let info = count(text.as_bytes());
    assert!(info.is_ok());
    let expected = FileInfo {
        num_lines: 1,
        num_words: 10,
        num_chars: 48,
        num_bytes: 48,
    };
    assert_eq!(info.unwrap(), expected);
}

#[test]
fn test_count_2() {
    let text = "I don't want the world. I just want your half.\r\n\
        I don't want the world. I just want your half.\r\n";
    let info = count(text.as_bytes());
    assert!(info.is_ok());
    let expected = FileInfo {
        num_lines: 2,
        num_words: 20,
        num_chars: 96,
        num_bytes: 96,
    };
    assert_eq!(info.unwrap(), expected);
}

#[test]
fn empty_input_measures_zero() {
    let info = count(b"").unwrap();
    let expected = FileInfo {
        num_lines: 0,
        num_words: 0,
        num_bytes: 0,
        num_chars: 0,
    };
    assert_eq!(info, expected);
}

#[test]
fn final_line_without_terminator_is_counted() {
    let info = count(b"no newline here").unwrap();
    assert_eq!(info.num_lines, 1);
    let info2 = count(b"one\ntwo").unwrap();
    assert_eq!(info2.num_lines, 2);
    let info3 = count(b"one\ntwo\n").unwrap();
    assert_eq!(info3.num_lines, 2);
}

#[test]
fn word_count_ignores_whitespace_width() {
    let narrow = count(b"a b c\n").unwrap();
    let wide = count(b"  a \t  b   c  \n\n").unwrap();
    assert_eq!(narrow.num_words, 3);
    assert_eq!(wide.num_words, 3);
}

#[test]
fn carriage_return_is_content_not_separator() {
    let info = count(b"a\rb\n").unwrap();
    assert_eq!(info.num_words, 1);
    assert_eq!(info.num_bytes, 4);
    assert_eq!(info.num_chars, 4);
    assert_eq!(info.num_lines, 1);
}

#[test]
fn chars_below_bytes_for_multibyte_content() {
    let info = count("h\u{e9}llo\n".as_bytes()).unwrap();
    assert_eq!(info.num_bytes, 7);
    assert_eq!(info.num_chars, 6);
    let four_byte = count("\u{1F600}".as_bytes()).unwrap();
    assert_eq!(four_byte.num_bytes, 4);
    assert_eq!(four_byte.num_chars, 1);
    assert_eq!(four_byte.num_words, 1);
    assert_eq!(four_byte.num_lines, 1);
}

#[test]
fn chars_equal_bytes_for_ascii_content() {
    let info = count(b"hello world\n").unwrap();
    assert_eq!(info.num_bytes, info.num_chars);
}

#[test]
fn malformed_bytes_are_a_decoding_error() {
    assert_eq!(count(&[0xff]), Err(DecodingError));
    assert_eq!(count(&[0x61, 0xc3]), Err(DecodingError));
    assert_eq!(count(&[0xc3, 0x28]), Err(DecodingError));
    assert_eq!(count(&[0xc0, 0xaf]), Err(DecodingError));
    assert_eq!(count(&[0xed, 0xa0, 0x80]), Err(DecodingError));
    assert_eq!(count(&[0xf5, 0x80, 0x80, 0x80]), Err(DecodingError));
}

#[test]
fn decoding_error_message_text() {
    let e = DecodingError;
    assert_eq!(e.message(), "stream did not contain valid UTF-8");
}

#[test]
fn format_field_right_aligns_in_width_eight() {
    assert_eq!(format_field(3, true), "       3");
    assert_eq!(format_field(0, true), "       0");
    assert_eq!(format_field(10, true), "      10");
    assert_eq!(format_field(12345678, true), "12345678");
    assert_eq!(format_field(123456789, true), "123456789");
}

#[test]
fn format_field_is_empty_when_not_requested() {
    assert_eq!(format_field(42, false), "");
}

#[test]
fn conflicting_chars_and_bytes_are_rejected() {
    let r = resolve_config(vec![String::from("a.txt")], false, false, true, true);
    assert_eq!(r.unwrap_err(), ConfigError::ConflictingFlags);
}

#[test]
fn no_flags_defaults_to_lines_words_bytes() {
    let c = resolve_config(vec![String::from("a.txt")], false, false, false, false).unwrap();
    assert!(c.lines && c.words && c.bytes);
    assert!(!c.chars);
}

#[test]
fn no_sources_defaults_to_standard_input() {
    let c = resolve_config(vec![], false, false, false, false).unwrap();
    assert_eq!(c.files, vec![String::from("-")]);
}

#[test]
fn chars_request_does_not_enable_bytes() {
    let c = resolve_config(vec![String::from("a.txt")], false, false, false, true).unwrap();
    assert!(c.chars);
    assert!(!c.lines && !c.words && !c.bytes);
}

fn default_config(names: &[&str]) -> Config {
    Config {
        files: names.iter().map(|n| String::from(*n)).collect(),
        lines: true,
        words: true,
        bytes: true,
        chars: false,
    }
}

#[test]
fn single_source_run_prints_no_total_line() {
    let config = default_config(&["-"]);
    let outcomes = vec![SourceOutcome::Measured(FileInfo {
        num_lines: 1,
        num_words: 10,
        num_bytes: 48,
        num_chars: 48,
    })];
    let r: RunOutput = run(config, outcomes);
    assert_eq!(r.out_lines, vec![String::from("       1      10      48")]);
    assert!(r.err_lines.is_empty());
}

#[test]
fn named_source_line_carries_its_name() {
    let config = default_config(&["a.txt"]);
    let outcomes = vec![SourceOutcome::Measured(FileInfo {
        num_lines: 1,
        num_words: 10,
        num_bytes: 48,
        num_chars: 48,
    })];
    let r = run(config, outcomes);
    assert_eq!(r.out_lines, vec![String::from("       1      10      48 a.txt")]);
}

#[test]
fn multi_source_total_sums_only_successes() {
    let config = default_config(&["a.txt", "missing.txt", "b.txt"]);
    let outcomes = vec![
        SourceOutcome::Measured(FileInfo {
            num_lines: 1,
            num_words: 10,
            num_bytes: 48,
            num_chars: 48,
        }),
        SourceOutcome::Failed(String::from("No such file or directory (os error 2)")),
        SourceOutcome::Measured(FileInfo {
            num_lines: 2,
            num_words: 20,
            num_bytes: 96,
            num_chars: 96,
        }),
    ];
    let r = run(config, outcomes);
    assert_eq!(
        r.out_lines,
        vec![
            String::from("       1      10      48 a.txt"),
            String::from("       2      20      96 b.txt"),
            String::from("       3      30     144 total"),
        ]
    );
    assert_eq!(
        r.err_lines,
        vec![String::from("missing.txt: No such file or directory (os error 2)")]
    );
}

#[test]
fn multi_source_run_prints_total_even_when_all_fail() {
    let config = default_config(&["x", "y"]);
    let outcomes = vec![
        SourceOutcome::Failed(String::from("No such file or directory (os error 2)")),
        SourceOutcome::Failed(String::from("Permission denied (os error 13)")),
    ];
    let r = run(config, outcomes);
    assert_eq!(
        r.out_lines,
        vec![String::from("       0       0       0 total")]
    );
    assert_eq!(r.err_lines.len(), 2);
    assert_eq!(r.err_lines[0], "x: No such file or directory (os error 2)");
    assert_eq!(r.err_lines[1], "y: Permission denied (os error 13)");
}

#[test]
fn chars_flag_prints_chars_instead_of_bytes() {
    let config = Config {
        files: vec![String::from("a.txt")],
        lines: false,
        words: false,
        bytes: false,
        chars: true,
    };
    let outcomes = vec![SourceOutcome::Measured(FileInfo {
        num_lines: 1,
        num_words: 2,
        num_bytes: 7,
        num_chars: 6,
    })];
    let r = run(config, outcomes);
    assert_eq!(r.out_lines, vec![String::from("       6 a.txt")]);
}
