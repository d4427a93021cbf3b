use wc::FileMetrics;

fn sample() -> FileMetrics {
    FileMetrics::new("hello world\n".as_bytes())
}

#[test]
fn default_output_is_bytes_lines_words() {
    assert_eq!(sample().stringFromArgs(false, false, false, false), " 12 1 2");
}

#[test]
fn single_switches() {
    let m = FileMetrics { words: 3, bytes: 40, characters: 37, lines: 5 };
    assert_eq!(m.stringFromArgs(true, false, false, false), " 40");
    assert_eq!(m.stringFromArgs(false, true, false, false), " 5");
    assert_eq!(m.stringFromArgs(false, false, true, false), " 37");
    assert_eq!(m.stringFromArgs(false, false, false, true), " 3");
}

#[test]
fn order_is_fixed_whatever_is_asked() {
    let m = FileMetrics { words: 3, bytes: 40, characters: 37, lines: 5 };
    assert_eq!(m.stringFromArgs(true, true, true, true), " 40 5 3 37");
    assert_eq!(m.stringFromArgs(false, true, true, false), " 5 37");
    assert_eq!(m.stringFromArgs(true, false, false, true), " 40 3");
    assert_eq!(m.stringFromArgs(true, true, false, true), " 40 5 3");
}

#[test]
fn characters_only_on_request() {
    let m = FileMetrics::new(&[0xC3, 0xA9, b'\n']);
    assert_eq!(m.stringFromArgs(false, false, false, false), " 3 1 1");
    assert_eq!(m.stringFromArgs(false, false, true, false), " 2");
}

#[test]
fn zero_counts_are_written() {
    let m = FileMetrics::new(&[]);
    assert_eq!(m.stringFromArgs(false, false, false, false), " 0 0 0");
    assert_eq!(m.stringFromArgs(true, true, true, true), " 0 0 0 0");
}

#[test]
fn large_counts_in_decimal() {
    let m = FileMetrics {
        words: 1_000,
        bytes: u64::MAX,
        characters: 9_007_199_254_740_993,
        lines: 32_768,
    };
    assert_eq!(
        m.stringFromArgs(true, true, true, true),
        " 18446744073709551615 32768 1000 9007199254740993"
    );
}

#[test]
fn counts_past_sixteen_bits() {
    let input = vec![b'\n'; 70_000];
    let m = FileMetrics::new(&input);
    assert_eq!(m.stringFromArgs(false, false, false, false), " 70000 70000 0");
}

#[test]
fn line_without_a_file_name() {
    assert_eq!(sample().output_line(false, false, false, false, None), " 12 1 2");
    assert_eq!(sample().output_line(false, false, true, false, None), " 12");
}

#[test]
fn line_with_a_file_name() {
    assert_eq!(
        sample().output_line(false, false, false, false, Some("notes.txt")),
        " 12 1 2 notes.txt"
    );
    assert_eq!(sample().output_line(false, true, false, true, Some("a b")), " 1 2 a b");
    assert_eq!(sample().output_line(true, false, false, false, Some("")), " 12 ");
}
