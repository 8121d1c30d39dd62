//! Quoted strings: `"` ... `"`, with backslash escapes.
use vstd::prelude::*;
use crate::error::{Error, InvalidCommandReason, Result};
use crate::parsers::chars::{chars_of, text_of};

verus! {

/// The character that a backslash followed by `c` stands for, where there
/// is one.
pub open spec fn unescape(c: char) -> Option<char> {
    if c == 'n' {
        Some('\n')
    } else if c == 'r' {
        Some('\r')
    } else if c == 't' {
        Some('\t')
    } else if c == 'b' {
        Some('\u{08}')
    } else if c == 'f' {
        Some('\u{0C}')
    } else if c == '\\' || c == '/' || c == '"' {
        Some(c)
    } else {
        None
    }
}

pub fn unescaped(c: char) -> (r: Option<char>)
    ensures
        r == unescape(c),
{
    if c == 'n' {
        Some('\n')
    } else if c == 'r' {
        Some('\r')
    } else if c == 't' {
        Some('\t')
    } else if c == 'b' {
        Some('\u{08}')
    } else if c == 'f' {
        Some('\u{0C}')
    } else if c == '\\' || c == '/' || c == '"' {
        Some(c)
    } else {
        None
    }
}

/// `head` put in front of what was read.
pub open spec fn prefixed(head: Seq<char>, read: Option<(Seq<char>, int)>) -> Option<(Seq<char>, int)> {
    match read {
        Some((value, end)) => Some((head + value, end)),
        None => None,
    }
}

/// What stands between index `at`, inside a quoted string, and the closing
/// quote: the value it spells, escapes resolved, and the index just behind
/// the closing quote. `None` where the text ends before a closing quote, or
/// a backslash is followed by a character that `unescape` does not know.
pub open spec fn quoted_body(s: Seq<char>, at: int) -> Option<(Seq<char>, int)>
    decreases s.len() - at,
{
    if at < 0 || at >= s.len() {
        None
    } else if s[at] == '"' {
        Some((Seq::empty(), at + 1))
    } else if s[at] == '\\' {
        if at + 1 < s.len() && unescape(s[at + 1]) is Some {
            prefixed(seq![unescape(s[at + 1])->0], quoted_body(s, at + 2))
        } else {
            None
        }
    } else {
        prefixed(seq![s[at]], quoted_body(s, at + 1))
    }
}

/// The quoted string that opens at index `at`: its value and the index just
/// behind its closing quote.
pub open spec fn quoted(s: Seq<char>, at: int) -> Option<(Seq<char>, int)> {
    if 0 <= at < s.len() && s[at] == '"' {
        quoted_body(s, at + 1)
    } else {
        None
    }
}

/// A quoted string ends behind where it began, and inside the text.
pub proof fn lemma_quoted_body_end(s: Seq<char>, at: int)
    ensures
        quoted_body(s, at) matches Some((_, end)) ==> at < end <= s.len(),
    decreases s.len() - at,
{
    if 0 <= at < s.len() && s[at] != '"' {
        if s[at] == '\\' {
            if at + 1 < s.len() {
                lemma_quoted_body_end(s, at + 2);
            }
        } else {
            lemma_quoted_body_end(s, at + 1);
        }
    }
}

/// Reads the quoted string that opens at `at`.
pub fn read_quoted(s: &[char], at: usize) -> (r: Option<(String, usize)>)
    ensures
        match quoted(s@, at as int) {
            Some((value, end)) => r matches Some((text, stop)) && text@ == value && stop == end
                && at < stop <= s@.len(),
            None => r is None,
        },
{
    if at >= s.len() || s[at] != '"' {
        return None;
    }
    let mut text = String::new();
    let mut i: usize = at + 1;
    while i < s.len() && s[i] != '"'
        invariant
            at < i <= s@.len(),
            quoted_body(s@, at + 1) == prefixed(text@, quoted_body(s@, i as int)),
        decreases s@.len() - i,
    {
        if s[i] == '\\' {
            if i + 1 >= s.len() {
                return None;
            }
            match unescaped(s[i + 1]) {
                Some(c) => {
                    text.push(c);
                    i += 2;
                },
                None => {
                    return None;
                },
            }
        } else {
            text.push(s[i]);
            i += 1;
        }
    }
    if i >= s.len() {
        return None;
    }
    Some((text, i + 1))
}

/// Parses a quoted string at the start of `input`: the text behind its
/// closing quote, and its value.
pub fn parse_string(input: &str) -> (r: Result<(&str, String)>)
    ensures
        match quoted(input@, 0) {
            Some((value, end)) => r matches Ok((rest, text)) && text@ == value && rest@
                == input@.subrange(end, input@.len() as int),
            None => r == Err::<(&str, String), Error>(
                Error::InvalidCommand(InvalidCommandReason::UnclosedQuote),
            ),
        },
{
    let chars = chars_of(input);
    match read_quoted(chars.as_slice(), 0) {
        Some((text, stop)) => Ok((input.substring_char(stop, chars.len()), text)),
        None => Err(Error::InvalidCommand(InvalidCommandReason::UnclosedQuote)),
    }
}

} // verus!
