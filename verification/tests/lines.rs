use wordle::lines::split_lines;

fn std_lines(text: &str) -> Vec<String> {
    text.lines().map(String::from).collect()
}

#[test]
fn split_lines_splits_at_line_feeds() {
    assert_eq!(split_lines("apple\nberry\ncocoa\n"), vec!["apple", "berry", "cocoa"]);
    assert_eq!(split_lines("apple\nberry\ncocoa"), vec!["apple", "berry", "cocoa"]);
}

#[test]
fn split_lines_of_nothing_is_nothing() {
    assert_eq!(split_lines(""), Vec::<String>::new());
}

#[test]
fn split_lines_keeps_empty_lines() {
    assert_eq!(split_lines("\n"), vec![""]);
    assert_eq!(split_lines("\n\n"), vec!["", ""]);
    assert_eq!(split_lines("a\n\nb"), vec!["a", "", "b"]);
}

#[test]
fn split_lines_drops_a_carriage_return_before_a_line_feed() {
    assert_eq!(split_lines("apple\r\nberry\r\n"), vec!["apple", "berry"]);
    assert_eq!(split_lines("a\r\r\nb"), vec!["a\r", "b"]);
    assert_eq!(split_lines("\r\n"), vec![""]);
}

#[test]
fn split_lines_keeps_other_carriage_returns() {
    assert_eq!(split_lines("a\rb\nc"), vec!["a\rb", "c"]);
    assert_eq!(split_lines("apple\r"), vec!["apple\r"]);
    assert_eq!(split_lines("\r"), vec!["\r"]);
    assert_eq!(split_lines("a\n\r"), vec!["a", "\r"]);
}

#[test]
fn split_lines_leaves_spaces_and_other_characters_alone() {
    assert_eq!(split_lines(" apple \nécole\n\tx"), vec![" apple ", "école", "\tx"]);
}

#[test]
fn split_lines_agrees_with_the_standard_library() {
    let samples = [
        "",
        "\n",
        "\r",
        "\r\n",
        "\n\r",
        "\r\r",
        "\r\r\n",
        "a",
        "a\n",
        "a\r",
        "a\r\n",
        "a\r\nb",
        "a\n\nb\n",
        "a\r\n\r\nb\r\n",
        "one\ntwo\r\nthree\rfour\n\rfive",
        "ends with returns\r\r",
        "naïve\ncafé\r\nüber",
    ];
    for text in samples {
        assert_eq!(split_lines(text), std_lines(text), "for {:?}", text);
    }
}
