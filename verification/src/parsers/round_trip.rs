//! Plain text, which is words and spaces only, comes back from the
//! tokenizer word by word.
use vstd::prelude::*;
use crate::parsers::chars::{lemma_run_end, run_end, CharClass};
use crate::parsers::tokenize::{after, next_token, tokens_from, Lexeme, Scan};

verus! {

/// Text made of ASCII letters, ASCII digits and spaces only.
pub open spec fn plain(s: Seq<char>) -> bool {
    forall|i: int| 0 <= i < s.len() ==> s[i] == ' ' || CharClass::Alphanumeric.contains(#[trigger] s[i])
}

/// The text `s` from index `from` on, normalized: the spaces at both ends
/// are dropped, and the spaces between two words become one space.
pub open spec fn normalized(s: Seq<char>, from: int) -> Seq<char>
    decreases s.len() - from,
{
    if from < 0 || from >= s.len() {
        Seq::empty()
    } else if s[from] == ' ' {
        normalized(s, from + 1)
    } else if from + 1 < s.len() && s[from + 1] == ' ' && normalized(s, from + 1).len() > 0 {
        seq![s[from], ' '] + normalized(s, from + 1)
    } else {
        seq![s[from]] + normalized(s, from + 1)
    }
}

/// The texts of the simple tokens among `lexemes`, joined by single spaces.
pub open spec fn joined(lexemes: Seq<Lexeme>) -> Seq<char>
    decreases lexemes.len(),
{
    if lexemes.len() == 0 {
        Seq::empty()
    } else {
        let rest = joined(lexemes.skip(1));
        match lexemes[0] {
            Lexeme::Simple(word) => if rest.len() == 0 {
                word
            } else {
                word + seq![' '] + rest
            },
            _ => rest,
        }
    }
}

/// Two classes that hold the same characters of `s` have the same runs in
/// it.
proof fn lemma_same_runs(s: Seq<char>, from: int, one: CharClass, other: CharClass)
    requires
        0 <= from <= s.len(),
        forall|i: int| from <= i < s.len() ==> one.contains(#[trigger] s[i]) == other.contains(s[i]),
    ensures
        run_end(s, from, one) == run_end(s, from, other),
    decreases s.len() - from,
{
    if from < s.len() && one.contains(s[from]) {
        lemma_same_runs(s, from + 1, one, other);
    }
}

/// Spaces in front do not show in the normalized text.
proof fn lemma_normalized_skips_spaces(s: Seq<char>, from: int)
    requires
        plain(s),
        0 <= from <= s.len(),
    ensures
        normalized(s, from) == normalized(s, run_end(s, from, CharClass::Space)),
    decreases s.len() - from,
{
    if from < s.len() && CharClass::Space.contains(s[from]) {
        lemma_normalized_skips_spaces(s, from + 1);
    }
}

/// A word that ends at `end` stands in the normalized text as it is, with
/// one space behind it where more text follows.
proof fn lemma_normalized_word(s: Seq<char>, from: int, end: int)
    requires
        plain(s),
        0 <= from < end <= s.len(),
        forall|i: int| from <= i < end ==> #[trigger] s[i] != ' ',
        end < s.len() ==> s[end] == ' ',
    ensures
        normalized(s, from) == if normalized(s, end).len() == 0 {
            s.subrange(from, end)
        } else {
            s.subrange(from, end) + seq![' '] + normalized(s, end)
        },
    decreases end - from,
{
    if from + 1 < end {
        lemma_normalized_word(s, from + 1, end);
    }
}

/// Round trip, from any index: plain text tokenizes into simple tokens
/// only, and these, joined by single spaces, are the normalized text.
pub proof fn lemma_round_trip_from(s: Seq<char>, from: int)
    requires
        plain(s),
        0 <= from <= s.len(),
    ensures
        tokens_from(s, from) matches Some((lexemes, _)) && joined(lexemes) == normalized(s, from)
            && forall|k: int| 0 <= k < lexemes.len() ==> #[trigger] lexemes[k] is Simple,
    decreases s.len() - from,
{
    let at = run_end(s, from, CharClass::Space);
    lemma_run_end(s, from, CharClass::Space);
    lemma_normalized_skips_spaces(s, from);
    if at < s.len() {
        let end = run_end(s, at, CharClass::Alphanumeric);
        lemma_run_end(s, at, CharClass::Alphanumeric);
        lemma_same_runs(s, at, CharClass::Word, CharClass::Alphanumeric);
        lemma_round_trip_from(s, end);
        lemma_normalized_word(s, at, end);
        let rest = tokens_from(s, end).unwrap().0;
        assert((seq![Lexeme::Simple(s.subrange(at, end))] + rest).skip(1) =~= rest);
    }
}

/// Round trip: the simple tokens of plain text, joined by single spaces,
/// are the text normalized; and plain text has no other tokens.
pub proof fn lemma_round_trip(s: Seq<char>)
    requires
        plain(s),
    ensures
        tokens_from(s, 0) matches Some((lexemes, _)) && joined(lexemes) == normalized(s, 0)
            && forall|k: int| 0 <= k < lexemes.len() ==> #[trigger] lexemes[k] is Simple,
{
    lemma_round_trip_from(s, 0);
}

} // verus!
