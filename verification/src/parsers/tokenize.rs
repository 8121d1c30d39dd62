//! The tokenizer: a line of text becomes a sequence of tokens.
use vstd::prelude::*;
use crate::error::{Error, InvalidCommandReason, Result};
use crate::parsers::chars::{chars_of, lemma_run_end, run_end, scan, text_of, CharClass};
use crate::parsers::escaped_string::{lemma_quoted_body_end, quoted, read_quoted};

verus! {

#[derive(Debug, Clone, Eq, PartialEq)]
pub enum Token {
    /// Representing a command, subcommand or positional argument
    Simple(String),
    /// Representing a named argument
    Named(String, String),
    /// Representing end of command
    End,
}

/// What a token says: the characters it holds.
pub enum Lexeme {
    Simple(Seq<char>),
    Named(Seq<char>, Seq<char>),
    End,
}

impl View for Token {
    type V = Lexeme;

    open spec fn view(&self) -> Lexeme {
        match self {
            Token::Simple(text) => Lexeme::Simple(text@),
            Token::Named(key, value) => Lexeme::Named(key@, value@),
            Token::End => Lexeme::End,
        }
    }
}

/// What a list of tokens says.
pub open spec fn lexemes_of(tokens: Seq<Token>) -> Seq<Lexeme> {
    tokens.map_values(|token: Token| token@)
}

/// What is found at one place of the text.
pub enum Scan {
    /// A token, and the index just behind it.
    Token(Lexeme, int),
    /// Nothing that the grammar knows.
    Nothing,
    /// A quoted string that is never closed, or holds an unknown escape.
    Malformed,
}

/// The run of `class` that starts at `at`, where it is not empty.
pub open spec fn run_at(s: Seq<char>, at: int, class: CharClass) -> Option<(Seq<char>, int)> {
    let end = run_end(s, at, class);
    if 0 <= at < end <= s.len() {
        Some((s.subrange(at, end), end))
    } else {
        None
    }
}

/// The value of a named argument at `at`, behind the `=`: a quoted string,
/// or a run of letters and digits.
pub open spec fn value_at(s: Seq<char>, at: int) -> Scan {
    if 0 <= at < s.len() && s[at] == '"' {
        match quoted(s, at) {
            Some((value, end)) => Scan::Token(Lexeme::Simple(value), end),
            None => Scan::Malformed,
        }
    } else {
        match run_at(s, at, CharClass::Alphanumeric) {
            Some((value, end)) => Scan::Token(Lexeme::Simple(value), end),
            None => Scan::Nothing,
        }
    }
}

/// A named argument at `at`: a run of letters and digits, `=`, and a value.
pub open spec fn named_at(s: Seq<char>, at: int) -> Scan {
    match run_at(s, at, CharClass::Alphanumeric) {
        Some((key, end)) => if end < s.len() && s[end] == '=' {
            match value_at(s, end + 1) {
                Scan::Token(Lexeme::Simple(value), stop) => Scan::Token(Lexeme::Named(key, value), stop),
                Scan::Malformed => Scan::Malformed,
                _ => Scan::Nothing,
            }
        } else {
            Scan::Nothing
        },
        None => Scan::Nothing,
    }
}

/// A positional token at `at`: a quoted string, or a bare word.
pub open spec fn simple_at(s: Seq<char>, at: int) -> Scan {
    if 0 <= at < s.len() && s[at] == '"' {
        match quoted(s, at) {
            Some((value, end)) => Scan::Token(Lexeme::Simple(value), end),
            None => Scan::Malformed,
        }
    } else {
        match run_at(s, at, CharClass::Word) {
            Some((word, end)) => Scan::Token(Lexeme::Simple(word), end),
            None => Scan::Nothing,
        }
    }
}

/// The token that starts at `at`, where no blank stands: the separator
/// `;`, else a named argument, else a positional token.
pub open spec fn token_at(s: Seq<char>, at: int) -> Scan {
    if at < 0 || at >= s.len() {
        Scan::Nothing
    } else if s[at] == ';' {
        Scan::Token(Lexeme::End, at + 1)
    } else {
        match named_at(s, at) {
            Scan::Nothing => simple_at(s, at),
            found => found,
        }
    }
}

/// The next token at or behind `from`, blanks skipped.
pub open spec fn next_token(s: Seq<char>, from: int) -> Scan {
    token_at(s, run_end(s, from, CharClass::Space))
}

/// `head` put in front of the tokens that were read.
pub open spec fn after(head: Seq<Lexeme>, read: Option<(Seq<Lexeme>, int)>) -> Option<(Seq<Lexeme>, int)> {
    match read {
        Some((lexemes, rest)) => Some((head + lexemes, rest)),
        None => None,
    }
}

/// The tokens of `s` from index `from` on, and the index at which reading
/// stopped because nothing that the grammar knows stands there (most often
/// the end of the text, blanks before it included). `None` where a quoted
/// string is malformed.
pub open spec fn tokens_from(s: Seq<char>, from: int) -> Option<(Seq<Lexeme>, int)>
    decreases s.len() - from,
{
    match next_token(s, from) {
        Scan::Token(lexeme, end) => if from < end <= s.len() {
            after(seq![lexeme], tokens_from(s, end))
        } else {
            Some((Seq::empty(), from))
        },
        Scan::Nothing => Some((Seq::empty(), from)),
        Scan::Malformed => None,
    }
}

/// A token ends behind where reading began, and inside the text: so
/// `tokens_from` goes on behind every token it finds.
pub proof fn lemma_token_advances(s: Seq<char>, from: int)
    requires
        0 <= from <= s.len(),
    ensures
        next_token(s, from) matches Scan::Token(_, end) ==> from < end <= s.len(),
{
    let at = run_end(s, from, CharClass::Space);
    lemma_run_end(s, from, CharClass::Space);
    if at < s.len() {
        lemma_run_end(s, at, CharClass::Alphanumeric);
        lemma_run_end(s, at, CharClass::Word);
        lemma_quoted_body_end(s, at + 1);
        let key_end = run_end(s, at, CharClass::Alphanumeric);
        if key_end < s.len() {
            lemma_run_end(s, key_end + 1, CharClass::Alphanumeric);
            lemma_quoted_body_end(s, key_end + 2);
        }
    }
}

/// Reads the value of a named argument at `at`.
fn read_value(s: &[char], at: usize) -> (r: Option<Option<(String, usize)>>)
    requires
        at <= s@.len(),
    ensures
        match value_at(s@, at as int) {
            Scan::Token(lexeme, end) => r matches Some(Some((text, stop))) && lexeme
                == Lexeme::Simple(text@) && stop == end && at < stop <= s@.len(),
            Scan::Nothing => r == Some(None::<(String, usize)>),
            Scan::Malformed => r is None,
        },
{
    if at < s.len() && s[at] == '"' {
        match read_quoted(s, at) {
            Some(read) => Some(Some(read)),
            None => None,
        }
    } else {
        let end = scan(s, at, CharClass::Alphanumeric);
        if end > at {
            Some(Some((text_of(s, at, end), end)))
        } else {
            Some(None)
        }
    }
}

/// Reads the next token at or behind `from`, blanks skipped.
fn read_token(s: &[char], from: usize) -> (r: Option<Option<(Token, usize)>>)
    requires
        from <= s@.len(),
    ensures
        match next_token(s@, from as int) {
            Scan::Token(lexeme, end) => r matches Some(Some((token, stop))) && token@ == lexeme
                && stop == end && from < stop <= s@.len(),
            Scan::Nothing => r == Some(None::<(Token, usize)>),
            Scan::Malformed => r is None,
        },
{
    let at = scan(s, from, CharClass::Space);
    if at >= s.len() {
        return Some(None);
    }
    if s[at] == ';' {
        return Some(Some((Token::End, at + 1)));
    }
    let key_end = scan(s, at, CharClass::Alphanumeric);
    if key_end > at && key_end < s.len() && s[key_end] == '=' {
        match read_value(s, key_end + 1) {
            None => {
                return None;
            },
            Some(Some((value, stop))) => {
                return Some(Some((Token::Named(text_of(s, at, key_end), value), stop)));
            },
            Some(None) => {},
        }
    }
    if s[at] == '"' {
        match read_quoted(s, at) {
            Some((text, stop)) => Some(Some((Token::Simple(text), stop))),
            None => None,
        }
    } else {
        let end = scan(s, at, CharClass::Word);
        if end > at {
            Some(Some((Token::Simple(text_of(s, at, end)), end)))
        } else {
            Some(None)
        }
    }
}

/// Cuts `data` into tokens. Returns the tokens and what is left of `data`
/// where reading stopped; fails where a quoted string is malformed.
pub fn tokenize(data: &str) -> (r: Result<(&str, Vec<Token>)>)
    ensures
        match tokens_from(data@, 0) {
            Some((lexemes, rest)) => r matches Ok((tail, tokens)) && lexemes_of(tokens@) == lexemes
                && 0 <= rest <= data@.len() && tail@ == data@.subrange(rest, data@.len() as int),
            None => r == Err::<(&str, Vec<Token>), Error>(
                Error::InvalidCommand(InvalidCommandReason::UnclosedQuote),
            ),
        },
{
    let chars = chars_of(data);
    let s = chars.as_slice();
    let mut tokens: Vec<Token> = Vec::new();
    let mut from: usize = 0;
    loop
        invariant
            s@ == data@,
            s@.len() == chars@.len(),
            from <= s@.len(),
            tokens_from(s@, 0) == after(lexemes_of(tokens@), tokens_from(s@, from as int)),
        decreases s@.len() - from,
    {
        match read_token(s, from) {
            None => {
                return Err(Error::InvalidCommand(InvalidCommandReason::UnclosedQuote));
            },
            Some(None) => {
                return Ok((data.substring_char(from, chars.len()), tokens));
            },
            Some(Some((token, stop))) => {
                tokens.push(token);
                from = stop;
            },
        }
    }
}

} // verus!
