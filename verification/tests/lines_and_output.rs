use minigrep::Args;
use minigrep::lines::split_lines;
use minigrep::search::output_lines;

#[test]
fn split_on_newlines() {
    assert_eq!(
        split_lines("a\nb\nc"),
        vec!["a".to_string(), "b".to_string(), "c".to_string()]
    );
}

#[test]
fn split_strips_carriage_return_before_newline() {
    assert_eq!(
        split_lines("a\r\nb\r\nc\r\n"),
        vec!["a".to_string(), "b".to_string(), "c".to_string()]
    );
}

#[test]
fn split_final_line_needs_no_terminator() {
    assert_eq!(split_lines("a\nb"), vec!["a".to_string(), "b".to_string()]);
    assert_eq!(split_lines("a\nb\n"), vec!["a".to_string(), "b".to_string()]);
}

#[test]
fn split_keeps_blank_lines() {
    assert_eq!(
        split_lines("a\n\nb\n"),
        vec!["a".to_string(), "".to_string(), "b".to_string()]
    );
}

#[test]
fn split_empty_text_has_no_lines() {
    assert_eq!(split_lines(""), Vec::<String>::new());
}

#[test]
fn split_keeps_lone_trailing_carriage_return() {
    assert_eq!(split_lines("abc\r"), vec!["abc\r".to_string()]);
    assert_eq!(split_lines("a\rb\nc"), vec!["a\rb".to_string(), "c".to_string()]);
}

#[test]
fn multi_file_output_is_prefixed() {
    let results = vec!["one".to_string(), "two".to_string()];
    let got = output_lines("a.txt", &results, true);
    assert_eq!(got, vec!["a.txt:one".to_string(), "a.txt:two".to_string()]);
}

#[test]
fn single_file_output_is_bare() {
    let results = vec!["one".to_string(), "two".to_string()];
    let got = output_lines("a.txt", &results, false);
    assert_eq!(got, results);
}

#[test]
fn prefix_exactly_when_several_files() {
    let mut a = Args {
        pattern: "x".to_string(),
        files: vec!["a.txt".to_string()],
        patterns: Vec::new(),
        pat_file: Vec::new(),
        ignore_case: false,
        invert_match: false,
        word_regexp: false,
        line_regexp: false,
    };
    assert!(!a.multiple_files());
    a.files.push("b.txt".to_string());
    assert!(a.multiple_files());
}
