use hl_rs::ansi::Color;
use hl_rs::ansi::Style;
use hl_rs::cli::Cli;
use hl_rs::highlight_scheme::HighlightScheme;
use hl_rs::highlighter::Highlighter;

fn empty_cli() -> Cli {
    Cli {
        black: None,
        bright_black: None,
        red: None,
        bright_red: None,
        green: None,
        bright_green: None,
        yellow: None,
        bright_yellow: None,
        blue: None,
        bright_blue: None,
        magenta: None,
        bright_magenta: None,
        cyan: None,
        bright_cyan: None,
        white: None,
        bright_white: None,
    }
}

#[test]
fn bad_pattern_fails_construction() {
    let r = HighlightScheme::new("[unclosed", Color::Red, Style::Plain);
    assert!(r.is_err());
    assert!(!r.err().unwrap().message().is_empty());
}

#[test]
fn bad_pattern_fails_builder() {
    assert!(HighlightScheme::builder("(open").is_err());
}

#[test]
fn bad_pattern_fails_whole_startup() {
    let mut cli = empty_cli();
    cli.green = Some("fine".to_string());
    cli.cyan = Some("*invalid".to_string());
    let r = cli.create_schemes_from_cli();
    assert!(r.is_err());
}

#[test]
fn builder_defaults_to_white_and_plain() {
    let scheme = HighlightScheme::builder("x").unwrap().build();
    let out = scheme.format_whole_slice(&b"x".to_vec());
    assert_eq!(String::from_utf8(out).unwrap(), "\u{1b}[37mx\u{1b}[0m");
}

#[test]
fn builder_chains_color_and_style() {
    let scheme = HighlightScheme::builder("abc")
        .unwrap()
        .with_color(Color::Red)
        .with_style(Style::Bold)
        .build();
    let out = scheme.format_whole_slice(&b"abc".to_vec());
    assert_eq!(String::from_utf8(out).unwrap(), "\u{1b}[1;31mabc\u{1b}[0m");
}

#[test]
fn format_whole_slice_styles() {
    let underlined = HighlightScheme::new("z", Color::BrightBlue, Style::Underline).unwrap();
    let out = underlined.format_whole_slice(&b"log".to_vec());
    assert_eq!(String::from_utf8(out).unwrap(), "\u{1b}[4;94mlog\u{1b}[0m");
}

#[test]
fn format_line_multiple_matches() {
    let scheme = HighlightScheme::new("ab", Color::Green, Style::Plain).unwrap();
    let out = scheme.format_line(&b"ab cd ab".to_vec());
    assert_eq!(
        String::from_utf8(out).unwrap(),
        "\u{1b}[32mab\u{1b}[0m cd \u{1b}[32mab\u{1b}[0m"
    );
}

#[test]
fn zero_width_matches_advance_without_looping() {
    let scheme = HighlightScheme::new("x*", Color::Red, Style::Plain).unwrap();
    let out = scheme.format_line(&b"abxxc".to_vec());
    assert_eq!(String::from_utf8(out).unwrap(), "ab\u{1b}[31mxx\u{1b}[0mc");
}

#[test]
fn zero_width_match_at_end_is_identity() {
    let scheme = HighlightScheme::new("$", Color::Red, Style::Plain).unwrap();
    let out = scheme.format_line(&b"abc".to_vec());
    assert_eq!(String::from_utf8(out).unwrap(), "abc");
}

#[test]
fn cli_rules_follow_fixed_color_order() {
    let mut cli = empty_cli();
    cli.green = Some("bar".to_string());
    cli.red = Some("foo".to_string());
    let schemes = cli.create_schemes_from_cli().unwrap();
    let h = Highlighter::new(schemes);
    let out = h.process_line(b"foo bar".to_vec());
    assert_eq!(
        String::from_utf8(out).unwrap(),
        "\u{1b}[31mfoo\u{1b}[0m \u{1b}[32mbar\u{1b}[0m"
    );
}

#[test]
fn cli_empty_specification_yields_no_rules() {
    let schemes = empty_cli().create_schemes_from_cli().unwrap();
    assert_eq!(schemes.len(), 0);
}

#[test]
fn cli_bright_colors_map_to_bright_codes() {
    let mut cli = empty_cli();
    cli.bright_red = Some("hot".to_string());
    let schemes = cli.create_schemes_from_cli().unwrap();
    let h = Highlighter::new(schemes);
    let out = h.process_line(b"hot stuff".to_vec());
    assert_eq!(
        String::from_utf8(out).unwrap(),
        "\u{1b}[91mhot\u{1b}[0m stuff"
    );
}

fn strip_escape_sequences(styled: &[u8]) -> Vec<u8> {
    let mut out = Vec::new();
    let mut i = 0;
    while i < styled.len() {
        if styled[i] == 0x1b {
            while i < styled.len() && styled[i] != b'm' {
                i += 1;
            }
            i += 1;
        } else {
            out.push(styled[i]);
            i += 1;
        }
    }
    out
}

#[test]
fn stripping_styling_reproduces_the_input_line() {
    let scheme = HighlightScheme::new("w[aeiou]rd", Color::Magenta, Style::Plain).unwrap();
    let input = b"a word, another wurd, done".to_vec();
    let styled = scheme.format_line(&input);
    assert!(styled != input);
    assert_eq!(strip_escape_sequences(&styled), input);
}
