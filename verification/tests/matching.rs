use minigrep::Args;

fn args(pattern: &str) -> Args {
    Args {
        pattern: pattern.to_string(),
        files: vec!["a.txt".to_string()],
        patterns: Vec::new(),
        pat_file: Vec::new(),
        ignore_case: false,
        invert_match: false,
        word_regexp: false,
        line_regexp: false,
    }
}

fn search(a: &Args, contents: &str) -> Vec<String> {
    minigrep::search::search_file(a, contents, &Vec::new()).unwrap()
}

#[test]
fn plain_substring_match() {
    let a = args("an");
    let got = search(&a, "apple\nbanana\ncherry\n");
    assert_eq!(got, vec!["banana".to_string()]);
}

#[test]
fn example_ignore_case_apple() {
    let mut a = args("apple");
    a.ignore_case = true;
    let got = search(&a, "apple\nbanana\nApple pie\n");
    assert_eq!(got, vec!["apple".to_string(), "Apple pie".to_string()]);
}

#[test]
fn ignore_case_folds_both_sides() {
    let mut a = args("abc");
    a.ignore_case = true;
    assert_eq!(search(&a, "ABC\n"), vec!["ABC".to_string()]);
    let b = args("abc");
    assert_eq!(search(&b, "ABC\n"), Vec::<String>::new());
}

#[test]
fn word_regexp_excludes_substrings() {
    let mut a = args("cat");
    a.word_regexp = true;
    assert_eq!(search(&a, "category\n"), Vec::<String>::new());
    assert_eq!(search(&a, "the cat sat\n"), vec!["the cat sat".to_string()]);
}

#[test]
fn line_regexp_requires_whole_line() {
    let mut a = args("cat");
    a.line_regexp = true;
    assert_eq!(search(&a, "cat\n"), vec!["cat".to_string()]);
    assert_eq!(search(&a, "the cat\n"), Vec::<String>::new());
}

#[test]
fn word_takes_precedence_over_line() {
    let mut a = args("cat");
    a.word_regexp = true;
    a.line_regexp = true;
    assert_eq!(search(&a, "the cat sat\n"), vec!["the cat sat".to_string()]);
}

#[test]
fn multiple_patterns_are_or() {
    let mut a = args("foo");
    a.patterns = vec!["bar".to_string()];
    let got = search(&a, "foo line\nneither\nbar line\nboth foo bar\n");
    assert_eq!(
        got,
        vec![
            "foo line".to_string(),
            "bar line".to_string(),
            "both foo bar".to_string(),
        ]
    );
}

#[test]
fn line_matching_both_patterns_kept_once() {
    let mut a = args("foo");
    a.patterns = vec!["fo".to_string(), "oo".to_string()];
    let got = search(&a, "foo\n");
    assert_eq!(got, vec!["foo".to_string()]);
}

#[test]
fn pattern_file_lines_are_patterns() {
    let a = args("zzz");
    let pat_lines = vec!["ban".to_string(), "che".to_string()];
    let got = minigrep::search::search_file(&a, "apple\nbanana\ncherry\n", &pat_lines).unwrap();
    assert_eq!(got, vec!["banana".to_string(), "cherry".to_string()]);
}

#[test]
fn empty_pattern_matches_every_line() {
    let a = args("");
    let got = search(&a, "one\n\ntwo\n");
    assert_eq!(
        got,
        vec!["one".to_string(), "".to_string(), "two".to_string()]
    );
}

#[test]
fn invert_selects_non_matching_lines() {
    let mut a = args("an");
    a.invert_match = true;
    let got = search(&a, "apple\nbanana\ncherry\n");
    assert_eq!(got, vec!["apple".to_string(), "cherry".to_string()]);
}

#[test]
fn invert_partitions_the_file() {
    let contents = "apple\nbanana\ncherry\nBanana split\n";
    let plain = args("an");
    let mut inverted = args("an");
    inverted.invert_match = true;
    let selected = search(&plain, contents);
    let rest = search(&inverted, contents);
    let all: Vec<String> = contents.lines().map(|l| l.to_string()).collect();
    assert_eq!(selected.len() + rest.len(), all.len());
    for l in &all {
        assert!(selected.contains(l) != rest.contains(l));
    }
}

#[test]
fn invalid_pattern_is_an_error() {
    let a = args("(");
    assert!(minigrep::search::search_file(&a, "anything\n", &Vec::new()).is_err());
    assert!(a.get_regexes(&Vec::new()).is_err());
}

#[test]
fn invalid_pattern_from_pattern_file_is_an_error() {
    let a = args("fine");
    let pat_lines = vec!["[".to_string()];
    assert!(a.get_regexes(&pat_lines).is_err());
}

#[test]
fn compiled_patterns_carry_the_anchoring() {
    let mut a = args("cat");
    a.word_regexp = true;
    let regexes = a.get_regexes(&Vec::new()).unwrap();
    assert_eq!(regexes.len(), 1);
    assert_eq!(regexes[0].as_str(), "\\b(cat)\\b");
    let mut b = args("Cat");
    b.line_regexp = true;
    b.ignore_case = true;
    let regexes = b.get_regexes(&Vec::new()).unwrap();
    assert_eq!(regexes[0].as_str(), "^cat$");
}

#[test]
fn lowercase_wrapper_folds() {
    let folded = minigrep::rx::to_lowercase("AbC-Д");
    assert_eq!(folded, "abc-д".to_string());
}
