use darkside::dataset::read_dataset;
use std::io::BufRead;

#[test]
fn dataset_lines_come_in_order() {
    assert_eq!(read_dataset("ab\ncd\nef\n"), vec!["ab", "cd", "ef"]);
}

#[test]
fn dataset_last_line_needs_no_line_feed() {
    assert_eq!(read_dataset("ab\ncd"), vec!["ab", "cd"]);
}

#[test]
fn dataset_of_an_empty_file() {
    assert_eq!(read_dataset(""), Vec::<String>::new());
}

#[test]
fn dataset_keeps_empty_lines() {
    assert_eq!(read_dataset("\n\na\n\n"), vec!["", "", "a", ""]);
}

#[test]
fn dataset_drops_carriage_returns_before_line_feeds() {
    assert_eq!(read_dataset("a\r\nb\r\r\n\rc\r\nd\r"), vec!["a", "b\r", "\rc", "d\r"]);
}

#[test]
fn dataset_holds_any_character() {
    assert_eq!(read_dataset("\u{e9}\u{1f600}\n\u{4e2d}\r\n"), vec!["\u{e9}\u{1f600}", "\u{4e2d}"]);
}

#[test]
fn dataset_agrees_with_the_line_reader() {
    for text in ["", "\n", "\r", "\r\n", "a", "a\n\r\nb\rc\r\r\n\n", "x\r\r", "\n\r"] {
        let lines: Vec<String> = std::io::BufReader::new(text.as_bytes())
            .lines()
            .map(|line| line.unwrap())
            .collect();
        assert_eq!(read_dataset(text), lines);
    }
}

#[test]
fn dataset_lines_written_out_are_read_back() {
    let lines = vec!["00ff".to_string(), "".to_string(), "a b".to_string()];
    let mut text = String::new();
    for line in &lines {
        text.push_str(line);
        text.push('\n');
    }
    assert_eq!(read_dataset(&text), lines);
}
