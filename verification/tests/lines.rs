use commr::order::compare_text;
use commr::{fold_line, get_cli, input_for, line_source, CommError, Input};
use std::cmp::Ordering;

#[test]
fn folding_lowercases_when_case_is_disregarded() {
    assert_eq!(fold_line("Apple PIE".to_string(), true), "apple pie");
    assert_eq!(fold_line("ÀÉÎ".to_string(), true), "àéî");
    assert_eq!(fold_line("already low".to_string(), true), "already low");
}

#[test]
fn folding_keeps_the_line_when_case_counts() {
    assert_eq!(fold_line("Apple PIE".to_string(), false), "Apple PIE");
}

#[test]
fn line_source_drops_records_that_are_not_text() {
    let records = vec![None, Some("B".to_string()), None, Some("c".to_string()), None];
    assert_eq!(line_source(records.clone(), false), vec!["B".to_string(), "c".to_string()]);
    assert_eq!(line_source(records, true), vec!["b".to_string(), "c".to_string()]);
    assert_eq!(line_source(Vec::new(), true), Vec::<String>::new());
    assert_eq!(line_source(vec![None, None], false), Vec::<String>::new());
}

#[test]
fn texts_are_ordered_by_code_point() {
    assert_eq!(compare_text("a", "b"), Ordering::Less);
    assert_eq!(compare_text("b", "a"), Ordering::Greater);
    assert_eq!(compare_text("a", "a"), Ordering::Equal);
    assert_eq!(compare_text("", ""), Ordering::Equal);
    assert_eq!(compare_text("", "a"), Ordering::Less);
    assert_eq!(compare_text("a", ""), Ordering::Greater);
    assert_eq!(compare_text("app", "apple"), Ordering::Less);
    assert_eq!(compare_text("apple", "app"), Ordering::Greater);
    assert_eq!(compare_text("Z", "a"), Ordering::Less);
    assert_eq!(compare_text("z", "é"), Ordering::Less);
    assert_eq!(compare_text("\u{ff5e}", "\u{10000}"), Ordering::Less);
}

#[test]
fn text_order_agrees_with_the_order_of_strings() {
    let texts = ["", "a", "A", "ab", "b", "é", "e\u{301}", "\u{ff5e}", "\u{10000}", "\t", " "];
    for a in texts {
        for b in texts {
            assert_eq!(compare_text(a, b), a.cmp(b));
        }
    }
}

#[test]
fn a_single_hyphen_names_standard_input() {
    assert_eq!(input_for("-"), Input::Stdin);
    assert_eq!(input_for("file.txt"), Input::File("file.txt".to_string()));
    assert_eq!(input_for("--"), Input::File("--".to_string()));
    assert_eq!(input_for(""), Input::File(String::new()));
    assert_eq!(input_for("\u{2212}"), Input::File("\u{2212}".to_string()));
}

#[test]
fn the_configuration_holds_what_it_was_given() {
    let cli = get_cli(
        "one".to_string(),
        "two".to_string(),
        true,
        false,
        true,
        true,
        ",".to_string(),
    )
    .unwrap();
    assert_eq!(cli.file1(), "one");
    assert_eq!(cli.file2(), "two");
    assert!(cli.show_col1());
    assert!(!cli.show_col2());
    assert!(cli.show_col3());
    assert!(cli.insensitive());
    assert_eq!(cli.delimiter(), ",");
}

#[test]
fn the_configuration_error_has_its_message() {
    assert_eq!(CommError::BothStdin.message(), "Both input files cannot be STDIN (\"-\")");
}

#[test]
fn a_failed_open_names_the_file_and_the_cause() {
    let error = CommError::Open {
        filename: "missing.txt".to_string(),
        cause: "No such file or directory (os error 2)".to_string(),
    };
    assert_eq!(error.message(), "missing.txt: No such file or directory (os error 2)");
}
