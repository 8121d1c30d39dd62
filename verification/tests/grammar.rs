use nom::branch::alt;
use nom::bytes::complete::{tag, take_till1};
use nom::character::complete::{alphanumeric1, multispace0};
use nom::combinator;
use nom::sequence::separated_pair;
use nom::IResult;
use yogurt::parsers::chars::{chars_of, scan, text_of, CharClass};
use yogurt::parsers::escaped_string::{read_quoted, unescaped};
use yogurt::parsers::tokenize::{tokenize, Token};

type Parsed<'a, T> = IResult<&'a str, T, nom::error::Error<&'a str>>;

/// One token of a line without quotes, read with nom's combinators.
fn nom_token(data: &str) -> Option<(&str, Token)> {
    let skipped: Parsed<&str> = multispace0(data);
    let (data, _) = skipped.ok()?;
    let separator: Parsed<&str> = tag(";")(data);
    if let Ok((rest, _)) = separator {
        return Some((rest, Token::End));
    }
    let token: Parsed<Token> = alt((
        combinator::map(
            separated_pair(
                combinator::map(alphanumeric1, |s: &str| s.to_string()),
                tag("="),
                combinator::map(alphanumeric1, |s: &str| s.to_string()),
            ),
            |(key, value)| Token::Named(key, value),
        ),
        combinator::map(take_till1(|c: char| c.is_whitespace() || c == ';'), |s: &str| {
            Token::Simple(s.to_string())
        }),
    ))(data);
    token.ok()
}

/// The tokens of a line without quotes, read with nom's combinators.
fn nom_tokens(data: &str) -> (&str, Vec<Token>) {
    let mut tokens = Vec::new();
    let mut data = data;
    while let Some((rest, token)) = nom_token(data) {
        data = rest;
        tokens.push(token);
    }
    (data, tokens)
}

fn every_line(alphabet: &[char], length: usize) -> Vec<String> {
    let mut lines = vec![String::new()];
    let mut last = vec![String::new()];
    for _ in 0..length {
        let mut next = Vec::new();
        for line in &last {
            for c in alphabet {
                let mut longer = line.clone();
                longer.push(*c);
                next.push(longer);
            }
        }
        lines.extend(next.iter().cloned());
        last = next;
    }
    lines
}

#[test]
fn tokenizer_reads_quoteless_lines_as_nom_does() {
    let alphabet = ['a', 'B', '7', '=', ';', ' ', '\t', '-', '\u{a0}', '\u{e9}'];
    let lines = every_line(&alphabet, 5);
    assert_eq!(lines.len(), 111_111);
    for line in &lines {
        let (rest, tokens) = nom_tokens(line);
        assert_eq!(tokenize(line), Ok((rest, tokens)), "on {:?}", line);
    }
}

#[test]
fn tokenizer_reads_long_quoteless_lines_as_nom_does() {
    let lines = [
        "set speed=10 limit=none; get speed ;; list",
        "  a=b=c  d==e f=;g\r\n\th=1",
        "say=hello\u{2003}there",
        "x=1\u{b}y=2",
        "\u{3000}",
        "caf\u{e9}=1 na\u{ef}ve=2 k=caf\u{e9}",
    ];
    for line in lines {
        let (rest, tokens) = nom_tokens(line);
        assert_eq!(tokenize(line), Ok((rest, tokens)), "on {:?}", line);
    }
}

#[test]
fn character_classes_agree_with_std_on_every_character() {
    for code in 0..=0x10FFFFu32 {
        if let Some(c) = char::from_u32(code) {
            assert_eq!(
                CharClass::Space.has(c),
                c == ' ' || c == '\t' || c == '\r' || c == '\n',
                "space, on {:?}",
                c
            );
            assert_eq!(
                CharClass::Alphanumeric.has(c),
                c.is_ascii_alphanumeric(),
                "alphanumeric, on {:?}",
                c
            );
            assert_eq!(CharClass::Word.has(c), !c.is_whitespace() && c != ';', "word, on {:?}", c);
        }
    }
}

#[test]
fn scan_finds_the_end_of_a_run() {
    let text: Vec<char> = "  ab1 ;x".chars().collect();
    assert_eq!(scan(&text, 0, CharClass::Space), 2);
    assert_eq!(scan(&text, 2, CharClass::Space), 2);
    assert_eq!(scan(&text, 2, CharClass::Alphanumeric), 5);
    assert_eq!(scan(&text, 2, CharClass::Word), 5);
    assert_eq!(scan(&text, 5, CharClass::Word), 5);
    assert_eq!(scan(&text, 6, CharClass::Word), 6);
    assert_eq!(scan(&text, 7, CharClass::Word), 8);
    assert_eq!(scan(&text, 8, CharClass::Word), 8);
}

#[test]
fn text_and_characters_convert_both_ways() {
    let chars = chars_of("h\u{e9}llo \u{1f600}");
    assert_eq!(chars, vec!['h', '\u{e9}', 'l', 'l', 'o', ' ', '\u{1f600}']);
    assert_eq!(text_of(&chars, 0, 7), "h\u{e9}llo \u{1f600}");
    assert_eq!(text_of(&chars, 1, 5), "\u{e9}llo");
    assert_eq!(text_of(&chars, 3, 3), "");
    assert_eq!(chars_of(""), Vec::<char>::new());
}

#[test]
fn escapes() {
    assert_eq!(unescaped('n'), Some('\n'));
    assert_eq!(unescaped('r'), Some('\r'));
    assert_eq!(unescaped('t'), Some('\t'));
    assert_eq!(unescaped('b'), Some('\u{8}'));
    assert_eq!(unescaped('f'), Some('\u{c}'));
    assert_eq!(unescaped('\\'), Some('\\'));
    assert_eq!(unescaped('/'), Some('/'));
    assert_eq!(unescaped('"'), Some('"'));
    assert_eq!(unescaped('q'), None);
    assert_eq!(unescaped('N'), None);
    assert_eq!(unescaped(' '), None);
    assert_eq!(unescaped('0'), None);
}

#[test]
fn quoted_string_inside_a_text() {
    let text: Vec<char> = "say \"a \\\"b\\\" c\" now".chars().collect();
    assert_eq!(read_quoted(&text, 4), Some(("a \"b\" c".to_string(), 15)));
    assert_eq!(read_quoted(&text, 0), None);
    assert_eq!(read_quoted(&text, 14), None);
    assert_eq!(read_quoted(&text, 19), None);
    assert_eq!(read_quoted(&text, 100), None);
    let empty: Vec<char> = "\"\"".chars().collect();
    assert_eq!(read_quoted(&empty, 0), Some((String::new(), 2)));
}
