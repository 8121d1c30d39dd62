use yogurt::parsers::escaped_string::parse_string;
use yogurt::parsers::tokenize::{tokenize, Token};
use yogurt::{Error, InvalidCommandReason};

fn simple(text: &str) -> Token {
    Token::Simple(text.to_string())
}

fn named(key: &str, value: &str) -> Token {
    Token::Named(key.to_string(), value.to_string())
}

#[test]
fn string_parse() {
    let sample = r#""hello\nworld \t tab""#;
    let result = parse_string(sample);
    assert_eq!(result, Ok(("", String::from("hello\nworld \t tab"))))
}

#[test]
fn string_parse_remainder() {
    let sample = r#""hel lo" world"#;
    let result = parse_string(sample);
    assert_eq!(result, Ok((" world", String::from("hel lo"))))
}

#[test]
fn unclosed_quoted_string() {
    let sample = r#""hello"#;
    let result = parse_string(sample);
    assert!(result.is_err())
}

#[test]
fn test_tokenize() {
    let sample = r#"test "epic parameter"; bye=2 ; hello="good day"   "#;
    let parsed_sample = vec![
        Token::Simple("test".to_string()),
        Token::Simple("epic parameter".to_string()),
        Token::End,
        Token::Named("bye".to_string(), "2".to_string()),
        Token::End,
        Token::Named("hello".to_string(), "good day".to_string()),
    ];
    assert_eq!(tokenize(sample), Ok(("   ", parsed_sample)));
}

#[test]
fn string_parse_every_escape() {
    let sample = r#""a\nb\rc\td\be\ff\\g\/h\"i" rest"#;
    assert_eq!(
        parse_string(sample),
        Ok((" rest", String::from("a\nb\rc\td\u{08}e\u{0C}f\\g/h\"i")))
    );
}

#[test]
fn string_parse_rejects_unknown_escape() {
    assert_eq!(
        parse_string(r#""a\qb""#),
        Err(Error::InvalidCommand(InvalidCommandReason::UnclosedQuote))
    );
    assert_eq!(
        parse_string(r#""ab\"#),
        Err(Error::InvalidCommand(InvalidCommandReason::UnclosedQuote))
    );
}

#[test]
fn string_parse_needs_opening_quote() {
    assert_eq!(
        parse_string("hello\""),
        Err(Error::InvalidCommand(InvalidCommandReason::UnclosedQuote))
    );
    assert_eq!(
        parse_string(""),
        Err(Error::InvalidCommand(InvalidCommandReason::UnclosedQuote))
    );
}

#[test]
fn string_parse_keeps_unicode() {
    assert_eq!(parse_string("\"h\u{e9}llo\" w\u{f6}rld"), Ok((" w\u{f6}rld", String::from("h\u{e9}llo"))));
}

#[test]
fn tokenize_empty_line() {
    assert_eq!(tokenize(""), Ok(("", vec![])));
    assert_eq!(tokenize("  \t\r\n"), Ok(("  \t\r\n", vec![])));
}

#[test]
fn tokenize_unclosed_quote_fails() {
    assert_eq!(
        tokenize("say \"hello"),
        Err(Error::InvalidCommand(InvalidCommandReason::UnclosedQuote))
    );
    assert_eq!(
        tokenize("say text=\"hello"),
        Err(Error::InvalidCommand(InvalidCommandReason::UnclosedQuote))
    );
}

#[test]
fn tokenize_words_round_trip() {
    let (rest, tokens) = tokenize("  alpha   beta9 7gamma  ").unwrap();
    assert_eq!(rest, "  ");
    assert_eq!(tokens, vec![simple("alpha"), simple("beta9"), simple("7gamma")]);
    let words: Vec<String> = tokens
        .into_iter()
        .map(|token| match token {
            Token::Simple(word) => word,
            other => panic!("not a word: {:?}", other),
        })
        .collect();
    assert_eq!(words.join(" "), "alpha beta9 7gamma");
}

#[test]
fn tokenize_named_forms() {
    assert_eq!(tokenize("a=b"), Ok(("", vec![named("a", "b")])));
    assert_eq!(tokenize("a=\"b c\"x"), Ok(("", vec![named("a", "b c"), simple("x")])));
    assert_eq!(tokenize("a=b-c"), Ok(("", vec![named("a", "b"), simple("-c")])));
    assert_eq!(tokenize("a=-5"), Ok(("", vec![simple("a=-5")])));
    assert_eq!(tokenize("a= b"), Ok(("", vec![simple("a="), simple("b")])));
    assert_eq!(tokenize("=b"), Ok(("", vec![simple("=b")])));
    assert_eq!(tokenize("k\u{e9}y=v"), Ok(("", vec![simple("k\u{e9}y=v")])));
}

#[test]
fn tokenize_separators() {
    assert_eq!(tokenize(";;"), Ok(("", vec![Token::End, Token::End])));
    assert_eq!(
        tokenize("a;b ; c"),
        Ok(("", vec![simple("a"), Token::End, simple("b"), Token::End, simple("c")]))
    );
    assert_eq!(tokenize("\"a;b\""), Ok(("", vec![simple("a;b")])));
}

#[test]
fn tokenize_stops_at_other_white_space() {
    assert_eq!(tokenize("a \u{a0}b"), Ok((" \u{a0}b", vec![simple("a")])));
    assert_eq!(tokenize("a\u{3000}b"), Ok(("\u{3000}b", vec![simple("a")])));
    assert_eq!(tokenize("a\u{b}"), Ok(("\u{b}", vec![simple("a")])));
}

#[test]
fn tokenize_word_with_quote_inside() {
    assert_eq!(tokenize("it\"s"), Ok(("", vec![simple("it\"s")])));
    assert_eq!(tokenize("\"a\"b"), Ok(("", vec![simple("a"), simple("b")])));
}
