use commr::{compare, get_cli, run, Cli, Column};

fn showing(show: [bool; 3]) -> Cli {
    get_cli(
        "first.txt".to_string(),
        "second.txt".to_string(),
        show[0],
        show[1],
        show[2],
        false,
        "\t".to_string(),
    )
    .unwrap()
}

fn owned(lines: &[&str]) -> Vec<String> {
    lines.iter().map(|line| line.to_string()).collect()
}

fn records(lines: &[&str]) -> Vec<Option<String>> {
    lines.iter().map(|line| Some(line.to_string())).collect()
}

const LEFT: [&str; 7] = ["ant", "bee", "bee", "cat", "dog", "dog", "eel"];

const RIGHT: [&str; 6] = ["bee", "cow", "dog", "dog", "dog", "fox"];

fn count(lines: &[&str], text: &str) -> usize {
    lines.iter().filter(|line| **line == text).count()
}

fn column_count(columns: &[Column], number: u8, text: &str) -> usize {
    columns
        .iter()
        .filter(|column| match column {
            Column::Col1(t) => number == 1 && *t == text,
            Column::Col2(t) => number == 2 && *t == text,
            Column::Col3(t) => number == 3 && *t == text,
        })
        .count()
}

#[test]
fn common_lines_occur_as_often_as_in_both_sorted_inputs() {
    let left = owned(&LEFT);
    let right = owned(&RIGHT);
    let columns = compare(&left, &right);
    for text in ["ant", "bee", "cat", "cow", "dog", "eel", "fox", "gnu"] {
        let expected = count(&LEFT, text).min(count(&RIGHT, text));
        assert_eq!(column_count(&columns, 3, text), expected);
    }
    let common: Vec<&str> = columns
        .iter()
        .filter(|column| column.from_left() && column.from_right())
        .map(|column| column.text())
        .collect();
    assert_eq!(common, vec!["bee", "dog", "dog"]);
}

#[test]
fn lines_of_one_input_only_stay_on_their_side() {
    let left = owned(&LEFT);
    let right = owned(&RIGHT);
    let columns = compare(&left, &right);
    for text in ["ant", "cat", "eel"] {
        assert_eq!(column_count(&columns, 1, text), count(&LEFT, text));
        assert_eq!(column_count(&columns, 2, text), 0);
        assert_eq!(column_count(&columns, 3, text), 0);
    }
    for text in ["cow", "fox"] {
        assert_eq!(column_count(&columns, 2, text), count(&RIGHT, text));
        assert_eq!(column_count(&columns, 1, text), 0);
        assert_eq!(column_count(&columns, 3, text), 0);
    }
}

#[test]
fn every_line_is_classified_once_even_when_unsorted() {
    let left = owned(&["pear", "fig", "fig", "lime"]);
    let right = owned(&["fig", "pear", "kiwi"]);
    let columns = compare(&left, &right);
    let from_left: Vec<&str> =
        columns.iter().filter(|c| c.from_left()).map(|c| c.text()).collect();
    let from_right: Vec<&str> =
        columns.iter().filter(|c| c.from_right()).map(|c| c.text()).collect();
    assert_eq!(from_left, vec!["pear", "fig", "fig", "lime"]);
    assert_eq!(from_right, vec!["fig", "pear", "kiwi"]);
}

fn read_back(output: &str) -> (Vec<String>, Vec<String>) {
    let mut left = Vec::new();
    let mut right = Vec::new();
    for row in output.lines() {
        if let Some(text) = row.strip_prefix("\t\t") {
            left.push(text.to_string());
            right.push(text.to_string());
        } else if let Some(text) = row.strip_prefix('\t') {
            right.push(text.to_string());
        } else {
            left.push(row.to_string());
        }
    }
    (left, right)
}

#[test]
fn the_columns_read_back_give_both_inputs() {
    let output = run(showing([true, true, true]), records(&LEFT), records(&RIGHT)).unwrap();
    assert_eq!(
        output,
        "ant\n\t\tbee\nbee\ncat\n\tcow\n\t\tdog\n\t\tdog\n\tdog\neel\n\tfox\n"
    );
    let (left, right) = read_back(&output);
    assert_eq!(left, owned(&LEFT));
    assert_eq!(right, owned(&RIGHT));
}

#[test]
fn a_common_line_that_begins_with_a_tab_still_reads_back() {
    let output =
        run(showing([true, true, true]), records(&["\tx", "y"]), records(&["\tx"])).unwrap();
    assert_eq!(output, "\t\t\tx\ny\n");
    let (left, right) = read_back(&output);
    assert_eq!(left, owned(&["\tx", "y"]));
    assert_eq!(right, owned(&["\tx"]));
}

#[test]
fn a_one_sided_line_that_begins_with_a_tab_reads_back_as_another_column() {
    let output = run(showing([true, true, true]), records(&["\tx"]), records(&[])).unwrap();
    assert_eq!(output, "\tx\n");
    let (left, right) = read_back(&output);
    assert_eq!(left, Vec::<String>::new());
    assert_eq!(right, owned(&["x"]));
}

#[test]
fn hiding_a_column_removes_its_lines_and_one_delimiter_after_it() {
    let all = run(showing([true, true, true]), records(&LEFT), records(&RIGHT)).unwrap();
    assert_eq!(all, "ant\n\t\tbee\nbee\ncat\n\tcow\n\t\tdog\n\t\tdog\n\tdog\neel\n\tfox\n");
    let no_first = run(showing([false, true, true]), records(&LEFT), records(&RIGHT)).unwrap();
    assert_eq!(no_first, "\tbee\ncow\n\tdog\n\tdog\ndog\nfox\n");
    let no_second = run(showing([true, false, true]), records(&LEFT), records(&RIGHT)).unwrap();
    assert_eq!(no_second, "ant\n\tbee\nbee\ncat\n\tdog\n\tdog\neel\n");
    let no_third = run(showing([true, true, false]), records(&LEFT), records(&RIGHT)).unwrap();
    assert_eq!(no_third, "ant\nbee\ncat\n\tcow\n\tdog\neel\n\tfox\n");
}

#[test]
fn a_single_shown_column_has_no_delimiter() {
    let first = run(showing([true, false, false]), records(&LEFT), records(&RIGHT)).unwrap();
    assert_eq!(first, "ant\nbee\ncat\neel\n");
    let second = run(showing([false, true, false]), records(&LEFT), records(&RIGHT)).unwrap();
    assert_eq!(second, "cow\ndog\nfox\n");
    let third = run(showing([false, false, true]), records(&LEFT), records(&RIGHT)).unwrap();
    assert_eq!(third, "bee\ndog\ndog\n");
}

#[test]
fn nothing_is_printed_when_every_column_is_hidden() {
    let output = run(showing([false, false, false]), records(&LEFT), records(&RIGHT));
    assert_eq!(output, Ok(String::new()));
}
