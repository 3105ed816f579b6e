use snowchains::yaml::{escape_string, insert_language_line, replace_scalars};

#[test]
fn escape_string_keeps_plain_scalars() {
    assert_eq!(escape_string("c++"), "c++");
    assert_eq!(escape_string("arc100"), "arc100");
}

#[test]
fn escape_string_writes_one_line() {
    let e = escape_string("a\nb");
    assert!(!e.contains('\n'));
    assert!(!e.starts_with("---"));
}

#[test]
fn insert_language_line_after_document_marker() {
    assert_eq!(
        insert_language_line("---\nservice: atcoder\ncontest: arc100\n", "c++"),
        "---\nlanguage: c++\nservice: atcoder\ncontest: arc100"
    );
}

#[test]
fn insert_language_line_without_document_marker() {
    assert_eq!(
        insert_language_line("service: atcoder\r\ncontest: arc100", "rust"),
        "language: rust\nservice: atcoder\ncontest: arc100"
    );
}

#[test]
fn replace_scalars_replaces_top_level_values() {
    let reps = vec![
        ("contest".to_owned(), "abc001".to_owned()),
        ("service".to_owned(), "hackerrank".to_owned()),
    ];
    assert_eq!(
        replace_scalars("---\nservice: atcoder # comment\ncontest: arc100\nlanguage: c++\n", &reps),
        Ok("---\nservice: hackerrank\ncontest: abc001\nlanguage: c++".to_owned())
    );
}

#[test]
fn replace_scalars_leaves_nested_keys() {
    let reps = vec![("language".to_owned(), "rust".to_owned())];
    assert_eq!(
        replace_scalars("language: c++\nservices:\n  language: go\n", &reps),
        Ok("language: rust\nservices:\n  language: go".to_owned())
    );
}

#[test]
fn replace_scalars_warns_of_a_missing_key() {
    let reps = vec![("language".to_owned(), "rust".to_owned())];
    assert_eq!(
        replace_scalars("service: atcoder\n  language: c++\n", &reps),
        Err("could not find `language` at the top level".to_owned())
    );
}

#[test]
fn escape_string_quotes_what_would_read_otherwise() {
    assert_eq!(escape_string(""), "\"\"");
    assert_eq!(escape_string("true"), "\"true\"");
    assert_eq!(escape_string("~"), "\"~\"");
}

#[test]
fn switched_lines_are_the_old_lines_with_new_values() {
    let yaml = "---\nservice: atcoder\ncontest: arc100\nlanguage: c++";
    let reps = vec![("contest".to_owned(), "abc001".to_owned())];
    let new = replace_scalars(yaml, &reps).unwrap();
    let old_lines: Vec<&str> = yaml.lines().collect();
    let new_lines: Vec<&str> = new.lines().collect();
    assert_eq!(old_lines.len(), new_lines.len());
    for (o, n) in old_lines.iter().zip(new_lines.iter()) {
        if o.starts_with("contest:") {
            assert_eq!(*n, "contest: abc001");
        } else {
            assert_eq!(o, n);
        }
    }
}
