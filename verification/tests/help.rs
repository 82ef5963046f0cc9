use req::examples;
use req::help::layout_examples;

static PAIRS: &[(&str, &str)] = &[
    ("Plain GET request", "req jsonip.com"),
    (
        "GET request with a URL encoded string",
        "req jsonip.com apiKey='foo bar'",
    ),
];

#[test]
fn layout_indents_and_separates() {
    let entries = vec![
        ("# one".to_string(), "req a"),
        ("# two".to_string(), "req b"),
    ];
    assert_eq!(
        layout_examples("EXAMPLES:", &entries),
        "EXAMPLES:\n    # one\n    req a\n\n    # two\n    req b"
    );
}

#[test]
fn layout_of_no_examples_is_the_heading_line() {
    assert_eq!(layout_examples("EXAMPLES:", &Vec::new()), "EXAMPLES:\n    ");
}

#[test]
fn layout_of_one_example() {
    let entries = vec![("note".to_string(), "command")];
    assert_eq!(layout_examples("H", &entries), "H\n    note\n    command");
}

#[test]
fn examples_plain_and_styled() {
    colored::control::set_override(false);
    assert_eq!(
        examples(PAIRS),
        "EXAMPLES:\n    # Plain GET request\n    req jsonip.com\n\n    # GET request with a URL encoded string\n    req jsonip.com apiKey='foo bar'"
    );
    colored::control::set_override(true);
    assert_eq!(
        examples(PAIRS),
        "\u{1b}[33mEXAMPLES:\u{1b}[0m\n    \u{1b}[2m# Plain GET request\u{1b}[0m\n    req jsonip.com\n\n    \u{1b}[2m# GET request with a URL encoded string\u{1b}[0m\n    req jsonip.com apiKey='foo bar'"
    );
    colored::control::unset_override();
}

#[test]
fn examples_always_hold_every_command_in_order() {
    let text = examples(PAIRS);
    let first = text.find("req jsonip.com\n").unwrap();
    let second = text.find("req jsonip.com apiKey='foo bar'").unwrap();
    assert!(first < second);
    assert!(text.contains("EXAMPLES:"));
    assert!(text.ends_with("req jsonip.com apiKey='foo bar'"));
}
