use commr::{get_cli, run, Cli, CommError, Input};

fn config(file1: &str, file2: &str, show: [bool; 3], insensitive: bool, delimiter: &str) -> Cli {
    get_cli(
        file1.to_string(),
        file2.to_string(),
        show[0],
        show[1],
        show[2],
        insensitive,
        delimiter.to_string(),
    )
    .unwrap()
}

fn defaults() -> Cli {
    config("first.txt", "second.txt", [true, true, true], false, "\t")
}

fn records(lines: &[&str]) -> Vec<Option<String>> {
    lines.iter().map(|line| Some(line.to_string())).collect()
}

#[test]
fn fruit_lists_with_every_column_shown() {
    let output = run(
        defaults(),
        records(&["apple", "banana", "cherry"]),
        records(&["banana", "cherry", "date"]),
    );
    assert_eq!(output, Ok("apple\n\t\tbanana\n\t\tcherry\n\tdate\n".to_string()));
}

#[test]
fn fruit_lists_with_only_the_common_column() {
    let cli = config("first.txt", "second.txt", [false, false, true], false, "\t");
    let output = run(
        cli,
        records(&["apple", "banana", "cherry"]),
        records(&["banana", "cherry", "date"]),
    );
    assert_eq!(output, Ok("banana\ncherry\n".to_string()));
}

#[test]
fn standard_input_twice_is_refused() {
    let cli = config("-", "-", [true, true, true], false, "\t");
    assert_eq!(cli.inputs(), Err(CommError::BothStdin));
    let output = run(cli, records(&["apple"]), records(&["apple"]));
    assert_eq!(output, Err(CommError::BothStdin));
}

#[test]
fn standard_input_once_is_accepted() {
    let first = config("-", "second.txt", [true, true, true], false, "\t");
    assert_eq!(first.inputs(), Ok((Input::Stdin, Input::File("second.txt".to_string()))));
    let second = config("first.txt", "-", [true, true, true], false, "\t");
    assert_eq!(second.inputs(), Ok((Input::File("first.txt".to_string()), Input::Stdin)));
    assert_eq!(run(first, records(&["a"]), records(&["a"])), Ok("\t\ta\n".to_string()));
}

#[test]
fn a_name_that_only_starts_with_a_hyphen_is_a_file() {
    let cli = config("--", "-x", [true, true, true], false, "\t");
    assert_eq!(
        cli.inputs(),
        Ok((Input::File("--".to_string()), Input::File("-x".to_string())))
    );
    let empty = config("", "-", [true, true, true], false, "\t");
    assert_eq!(empty.inputs(), Ok((Input::File(String::new()), Input::Stdin)));
}

#[test]
fn empty_second_input_leaves_every_line_in_the_first_column() {
    let output = run(defaults(), records(&["apple", "banana"]), records(&[]));
    assert_eq!(output, Ok("apple\nbanana\n".to_string()));
}

#[test]
fn empty_first_input_leaves_every_line_in_the_second_column() {
    let output = run(defaults(), records(&[]), records(&["banana", "date"]));
    assert_eq!(output, Ok("\tbanana\n\tdate\n".to_string()));
}

#[test]
fn two_empty_inputs_print_nothing() {
    assert_eq!(run(defaults(), records(&[]), records(&[])), Ok(String::new()));
}

#[test]
fn lines_that_differ_in_case_only_are_common_when_case_is_disregarded() {
    let cli = config("first.txt", "second.txt", [true, true, true], true, "\t");
    let output = run(cli, records(&["Apple", "BANANA"]), records(&["apple", "banana"]));
    assert_eq!(output, Ok("\t\tapple\n\t\tbanana\n".to_string()));
}

#[test]
fn lines_that_differ_in_case_only_are_distinct_when_case_counts() {
    let output = run(defaults(), records(&["Apple"]), records(&["apple"]));
    assert_eq!(output, Ok("Apple\n\tapple\n".to_string()));
}

#[test]
fn records_that_are_not_text_are_passed_over() {
    let first = vec![Some("apple".to_string()), None, Some("cherry".to_string())];
    let second = vec![None, Some("cherry".to_string()), None];
    assert_eq!(run(defaults(), first, second), Ok("apple\n\t\tcherry\n".to_string()));
}

#[test]
fn the_delimiter_may_be_longer_than_one_character() {
    let cli = config("first.txt", "second.txt", [true, true, true], false, "<->");
    let output = run(cli, records(&["a", "b"]), records(&["b", "c"]));
    assert_eq!(output, Ok("a\n<-><->b\n<->c\n".to_string()));
}

#[test]
fn the_delimiter_may_be_empty() {
    let cli = config("first.txt", "second.txt", [true, true, true], false, "");
    let output = run(cli, records(&["a", "b"]), records(&["b", "c"]));
    assert_eq!(output, Ok("a\nb\nc\n".to_string()));
}

#[test]
fn unsorted_inputs_are_merged_as_they_come() {
    let output = run(defaults(), records(&["b", "a"]), records(&["a", "b"]));
    assert_eq!(output, Ok("\ta\n\t\tb\na\n".to_string()));
}

#[test]
fn repeated_lines_are_common_as_often_as_both_inputs_have_them() {
    let output = run(defaults(), records(&["a", "a", "a", "b"]), records(&["a", "a", "c"]));
    assert_eq!(output, Ok("\t\ta\n\t\ta\na\nb\n\tc\n".to_string()));
}
