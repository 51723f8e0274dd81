use hl_rs::ansi::Color;
use hl_rs::ansi::Style;
use hl_rs::highlight_scheme::HighlightScheme;
use hl_rs::highlighter::Highlighter;

fn process_buffer(schemes: Vec<HighlightScheme>, in_buf: &str) -> String {
    let h = Highlighter::new(schemes);
    in_buf
        .lines()
        .map(|line| String::from_utf8(h.process_line(line.as_bytes().to_vec())).unwrap())
        .fold(String::new(), |acc, x| acc + "\n" + &x)
        .trim_start()
        .to_string()
}

#[test]
fn process_line_no_schemes_test() {
    let schemes = vec![];
    let input = "Hello!";
    let expected_output = "Hello!";

    let output = process_buffer(schemes, input);

    assert_eq!(expected_output, output);
}

#[test]
fn process_line_single_highlight_test() {
    let schemes = vec![HighlightScheme::new(r"\[ERROR\].*", Color::Red, Style::Plain)
        .expect("could not setup highlight scheme")];

    let input = "[ERROR] you need to realign the positronic matrix buffers";
    let expected_output =
        "\u{1b}[31m[ERROR] you need to realign the positronic matrix buffers\u{1b}[0m";

    let output = process_buffer(schemes, input);

    assert_eq!(expected_output, output);
}

#[test]
fn process_line_no_matches_test() {
    let schemes = vec![HighlightScheme::new(r"\[ERROR\].*", Color::Red, Style::Plain)
        .expect("could not setup highlight scheme")];

    let input = "some message that doesnt fit the match";
    let expected_output = "some message that doesnt fit the match";

    let output = process_buffer(schemes, input);

    assert_eq!(expected_output, output);
}

#[test]
fn process_line_multi_line_multi_match() {
    let schemes = vec![
        HighlightScheme::new(r"\[ERROR\].*", Color::Red, Style::Plain)
            .expect("could not setup highlight scheme"),
        HighlightScheme::new(r"\[WARN\].*", Color::Yellow, Style::Plain)
            .expect("could not setup highlight scheme"),
    ];

    let input = "[ERROR] you need to realign the positronic matrix buffers\n[WARN] the fields array is slightly out of alignment.";
    let expected_output = format!(
        "{}\n{}",
        "\u{1b}[31m[ERROR] you need to realign the positronic matrix buffers\u{1b}[0m",
        "\u{1b}[33m[WARN] the fields array is slightly out of alignment.\u{1b}[0m"
    );

    let output = process_buffer(schemes, input);

    assert_eq!(expected_output, output);
}

#[test]
fn streams_singleline_test() {
    let input = "this is my input file.";

    let expected_output = "this is my \u{1b}[32minput\u{1b}[0m \u{1b}[36mfile\u{1b}[0m.\n";

    let schemes = vec![
        HighlightScheme::new(r"input", Color::Green, Style::Plain)
            .expect("could not setup highlight scheme"),
        HighlightScheme::new(r"file", Color::Cyan, Style::Plain)
            .expect("could not setup highlight scheme"),
    ];

    let h = Highlighter::new(schemes);
    let output = String::from_utf8(h.process_text(&input.as_bytes().to_vec())).unwrap();

    assert_eq!(expected_output, output);
}

#[test]
fn streams_multiline_test() {
    let input = "\
this is my input file.
this is a second line.
this is the final line.
";

    let expected_output = "\
this is my input file.
this is a \u{1b}[32msecond\u{1b}[0m line.
this is the \u{1b}[36mfinal\u{1b}[0m line.
";

    let schemes = vec![
        HighlightScheme::new(r"\[ERROR\].*", Color::Red, Style::Plain)
            .expect("could not setup highlight scheme"),
        HighlightScheme::new(r"\[WARN\].*", Color::Yellow, Style::Plain)
            .expect("could not setup highlight scheme"),
        HighlightScheme::new(r"second", Color::Green, Style::Plain)
            .expect("could not setup highlight scheme"),
        HighlightScheme::new(r"final", Color::Cyan, Style::Plain)
            .expect("could not setup highlight scheme"),
    ];

    let h = Highlighter::new(schemes);
    let output = String::from_utf8(h.process_text(&input.as_bytes().to_vec())).unwrap();

    assert_eq!(expected_output, output);
}

#[test]
fn process_text_normalizes_missing_final_newline() {
    let h = Highlighter::new(vec![]);
    let output = h.process_text(&b"first\nsecond".to_vec());
    assert_eq!(String::from_utf8(output).unwrap(), "first\nsecond\n");
}

#[test]
fn process_text_empty_input_writes_nothing() {
    let h = Highlighter::new(vec![]);
    let output = h.process_text(&Vec::new());
    assert_eq!(output.len(), 0);
}

#[test]
fn process_text_keeps_empty_lines() {
    let h = Highlighter::new(vec![]);
    let output = h.process_text(&b"a\n\nb\n".to_vec());
    assert_eq!(String::from_utf8(output).unwrap(), "a\n\nb\n");
}

#[test]
fn process_line_empty_line_unchanged() {
    let schemes = vec![HighlightScheme::new("abc", Color::Red, Style::Plain).unwrap()];
    let h = Highlighter::new(schemes);
    let output = h.process_line(Vec::new());
    assert_eq!(output.len(), 0);
}
