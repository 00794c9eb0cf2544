use kindle_clippings::text::split_lines;

#[test]
fn empty_text_has_no_lines() {
    assert!(split_lines("").is_empty());
}

#[test]
fn line_feeds_end_lines() {
    assert_eq!(split_lines("a\nb\n"), vec!["a".to_string(), "b".to_string()]);
}

#[test]
fn last_line_needs_no_line_feed() {
    assert_eq!(split_lines("a\nb"), vec!["a".to_string(), "b".to_string()]);
}

#[test]
fn carriage_return_before_line_feed_is_dropped() {
    assert_eq!(split_lines("a\r\nb\r\n"), vec!["a".to_string(), "b".to_string()]);
}

#[test]
fn only_one_carriage_return_is_dropped() {
    assert_eq!(split_lines("a\r\r\nb"), vec!["a\r".to_string(), "b".to_string()]);
}

#[test]
fn carriage_return_inside_a_line_stays() {
    assert_eq!(split_lines("a\rb\n"), vec!["a\rb".to_string()]);
}

#[test]
fn carriage_return_at_the_end_of_the_text_stays() {
    assert_eq!(split_lines("a\nb\r"), vec!["a".to_string(), "b\r".to_string()]);
}

#[test]
fn empty_lines_are_lines() {
    assert_eq!(
        split_lines("\n\na\n\n"),
        vec![String::new(), String::new(), "a".to_string(), String::new()]
    );
}

#[test]
fn a_lone_line_feed_is_one_empty_line() {
    assert_eq!(split_lines("\n"), vec![String::new()]);
    assert_eq!(split_lines("\r\n"), vec![String::new()]);
}

#[test]
fn lines_agree_with_the_standard_library() {
    let samples = [
        "",
        "one",
        "one\n",
        "one\r\n",
        "one\r\ntwo",
        "\u{feff}Titre (Auteur)\r\n- Votre note\r\n\r\nCafé crème\r\n==========\r\n",
        "\n\n\n",
        "a\rb\r\n\rc",
        "x\r",
    ];
    for sample in samples {
        let expected: Vec<String> = sample.lines().map(|line| line.to_string()).collect();
        assert_eq!(split_lines(sample), expected, "for {:?}", sample);
    }
}

#[test]
fn characters_outside_ascii_pass_through() {
    assert_eq!(
        split_lines("Ajouté le mardi\nà 08:50 — fin\n"),
        vec!["Ajouté le mardi".to_string(), "à 08:50 — fin".to_string()]
    );
}
