use globalenv::text::{
    has_text, is_found_at, make_export_line, make_export_prefix, missing_assignment, same_text,
    strip_assignments, to_chars,
};

fn chars(s: &str) -> Vec<char> {
    s.chars().collect()
}

#[test]
fn to_chars_gives_each_character() {
    assert_eq!(to_chars(""), Vec::<char>::new());
    assert_eq!(to_chars("a=b\n"), vec!['a', '=', 'b', '\n']);
    assert_eq!(to_chars("é€"), vec!['é', '€']);
}

#[test]
fn same_text_compares_whole_texts() {
    assert!(same_text("", ""));
    assert!(same_text("/bin/zsh", "/bin/zsh"));
    assert!(!same_text("/bin/zsh", "/bin/zs"));
    assert!(!same_text("/bin/zs", "/bin/zsh"));
    assert!(!same_text("/bin/zsh", "/bin/zsH"));
}

#[test]
fn export_line_is_built_from_name_and_value() {
    assert_eq!(make_export_line("ENVTEST", "TESTVALUE"), "export ENVTEST=TESTVALUE\n");
    assert_eq!(make_export_line("X", ""), "export X=\n");
    assert_eq!(make_export_line("", "V"), "export =V\n");
    assert_eq!(make_export_line("P", "a=b c"), "export P=a=b c\n");
}

#[test]
fn export_prefix_ends_with_the_equals_sign() {
    assert_eq!(make_export_prefix("ENVTEST"), chars("export ENVTEST="));
    assert_eq!(make_export_prefix(""), chars("export ="));
}

#[test]
fn found_at_checks_position_and_bounds() {
    let text = chars("abcabc");
    assert!(is_found_at(&text, 0, &chars("abc")));
    assert!(is_found_at(&text, 3, &chars("abc")));
    assert!(!is_found_at(&text, 1, &chars("abc")));
    assert!(!is_found_at(&text, 4, &chars("abc")));
    assert!(is_found_at(&text, 6, &chars("")));
    assert!(!is_found_at(&text, 7, &chars("")));
    assert!(!is_found_at(&text, 0, &chars("abcabca")));
}

#[test]
fn a_text_is_held_wherever_it_stands() {
    let line = chars("export X=V\n");
    assert!(has_text(&chars("export X=V\n"), &line));
    assert!(has_text(&chars("a\nexport X=V\nb\n"), &line));
    assert!(has_text(&chars("# export X=V\n"), &line));
    assert!(has_text(&chars("abcexport X=V\n"), &line));
    assert!(has_text(&chars(" export X=V\nrest"), &line));
    assert!(!has_text(&chars(""), &line));
    assert!(!has_text(&chars("export X=V"), &line));
    assert!(!has_text(&chars("export X=V\r\n"), &line));
    assert!(!has_text(&chars("export X=VV\n"), &line));
    assert!(!has_text(&chars("xport X=V\n"), &line));
    assert!(has_text(&chars("anything"), &chars("")));
    assert!(has_text(&chars(""), &chars("")));
    assert!(has_text(&chars("abc"), &chars("c")));
    assert!(!has_text(&chars("abc"), &chars("abcd")));
}

#[test]
fn missing_assignment_is_the_line_to_append() {
    assert_eq!(missing_assignment("", "X", "V"), Some(String::from("export X=V\n")));
    assert_eq!(missing_assignment("export X=V\n", "X", "V"), None);
    assert_eq!(missing_assignment("a\nexport X=V\nb", "X", "V"), None);
    assert_eq!(missing_assignment("export X=W\n", "X", "V"), Some(String::from("export X=V\n")));
    assert_eq!(missing_assignment("export X=V", "X", "V"), Some(String::from("export X=V\n")));
    assert_eq!(missing_assignment("abc", "X", "V"), Some(String::from("export X=V\n")));
}

#[test]
fn missing_assignment_finds_the_line_inside_a_longer_one() {
    assert_eq!(missing_assignment("# export X=V\n", "X", "V"), None);
    assert_eq!(missing_assignment("abcexport X=V\n", "X", "V"), None);
    assert_eq!(missing_assignment("abcexport X=V\nexport Y=1", "X", "V"), None);
}

#[test]
fn strip_without_assignment_gives_none() {
    assert_eq!(strip_assignments("", "X"), None);
    assert_eq!(strip_assignments("export Y=1\n", "X"), None);
    assert_eq!(strip_assignments("# export X=1\n", "X"), None);
    assert_eq!(strip_assignments("  export X=1\n", "X"), None);
    assert_eq!(strip_assignments("export XY=1\n", "X"), None);
    assert_eq!(strip_assignments("export X\n=1\n", "X"), None);
    assert_eq!(strip_assignments("echo X\r\nexport Y=1", "X"), None);
}

#[test]
fn strip_removes_the_assignments_and_keeps_the_rest() {
    assert_eq!(strip_assignments("export X=1\n", "X"), Some(String::from("")));
    assert_eq!(strip_assignments("export X=1", "X"), Some(String::from("")));
    assert_eq!(strip_assignments("export X=", "X"), Some(String::from("")));
    assert_eq!(
        strip_assignments("a\nexport X=1\nb\nexport X=2\nc\n", "X"),
        Some(String::from("a\nb\nc\n"))
    );
    assert_eq!(
        strip_assignments("export Y=1\nexport X=1\n", "X"),
        Some(String::from("export Y=1\n"))
    );
    assert_eq!(
        strip_assignments("# X here\nexport X=1\necho $X\n", "X"),
        Some(String::from("# X here\necho $X\n"))
    );
}

#[test]
fn strip_ends_every_kept_line_with_one_line_feed() {
    assert_eq!(
        strip_assignments("a\r\nexport X=1\r\nb", "X"),
        Some(String::from("a\nb\n"))
    );
    assert_eq!(
        strip_assignments("export X=1\n\n\nb\r", "X"),
        Some(String::from("\n\nb\r\n"))
    );
    assert_eq!(
        strip_assignments("a\r\r\nexport X=1\n\r\n", "X"),
        Some(String::from("a\r\n\n"))
    );
}

#[test]
fn strip_takes_the_line_without_its_carriage_return() {
    assert_eq!(strip_assignments("export X=\r\nb\n", "X"), Some(String::from("b\n")));
    assert_eq!(strip_assignments("export X\r\n", "X"), None);
    assert_eq!(
        strip_assignments("é\nexport é=€\n€\n", "é"),
        Some(String::from("é\n€\n"))
    );
}
