//! Character classes of the command grammar, and scanning a run of one class.
use vstd::prelude::*;

verus! {

/// The classes of characters that the grammar tells apart.
#[derive(Clone, Copy, Debug)]
pub enum CharClass {
    /// What is skipped between tokens: space, tab, carriage return, line feed.
    Space,
    /// ASCII letters and digits: argument names and bare argument values.
    Alphanumeric,
    /// What a bare word is made of: anything but white space and `;`.
    Word,
}

/// Unicode's `White_Space` property.
pub open spec fn is_whitespace(c: char) -> bool {
    let n = c as u32;
    ||| 0x09 <= n <= 0x0D
    ||| n == 0x20
    ||| n == 0x85
    ||| n == 0xA0
    ||| n == 0x1680
    ||| 0x2000 <= n <= 0x200A
    ||| n == 0x2028
    ||| n == 0x2029
    ||| n == 0x202F
    ||| n == 0x205F
    ||| n == 0x3000
}

impl CharClass {
    pub open spec fn contains(self, c: char) -> bool {
        match self {
            CharClass::Space => c == ' ' || c == '\t' || c == '\r' || c == '\n',
            CharClass::Alphanumeric => {
                let n = c as u32;
                0x30 <= n <= 0x39 || 0x41 <= n <= 0x5A || 0x61 <= n <= 0x7A
            },
            CharClass::Word => !is_whitespace(c) && c != ';',
        }
    }

    pub fn has(self, c: char) -> (r: bool)
        ensures
            r == self.contains(c),
    {
        let n: u32 = c as u32;
        match self {
            CharClass::Space => n == 0x20 || n == 0x09 || n == 0x0D || n == 0x0A,
            CharClass::Alphanumeric => {
                (0x30 <= n && n <= 0x39) || (0x41 <= n && n <= 0x5A) || (0x61 <= n && n <= 0x7A)
            },
            CharClass::Word => {
                let white = (0x09 <= n && n <= 0x0D) || n == 0x20 || n == 0x85 || n == 0xA0
                    || n == 0x1680 || (0x2000 <= n && n <= 0x200A) || n == 0x2028 || n == 0x2029
                    || n == 0x202F || n == 0x205F || n == 0x3000;
                !white && n != 0x3B
            },
        }
    }
}

/// Where the run of characters of `class` that starts at `from` ends: the
/// first index at or after `from` whose character is not of the class, or
/// the length of `s`.
pub open spec fn run_end(s: Seq<char>, from: int, class: CharClass) -> int
    decreases s.len() - from,
{
    if 0 <= from < s.len() && class.contains(s[from]) {
        run_end(s, from + 1, class)
    } else {
        from
    }
}

/// A run ends inside the text, holds only characters of its class, and is
/// followed by a character of another class or by nothing.
pub proof fn lemma_run_end(s: Seq<char>, from: int, class: CharClass)
    requires
        0 <= from <= s.len(),
    ensures
        from <= run_end(s, from, class) <= s.len(),
        forall|k: int| from <= k < run_end(s, from, class) ==> class.contains(#[trigger] s[k]),
        run_end(s, from, class) < s.len() ==> !class.contains(s[run_end(s, from, class)]),
    decreases s.len() - from,
{
    if from < s.len() && class.contains(s[from]) {
        lemma_run_end(s, from + 1, class);
    }
}

/// Scans the run of `class` that starts at `from`.
pub fn scan(s: &[char], from: usize, class: CharClass) -> (end: usize)
    requires
        from <= s@.len(),
    ensures
        end == run_end(s@, from as int, class),
        from <= end <= s@.len(),
{
    let mut end: usize = from;
    while end < s.len() && class.has(s[end])
        invariant
            from <= end <= s@.len(),
            run_end(s@, from as int, class) == run_end(s@, end as int, class),
        decreases s@.len() - end,
    {
        end += 1;
    }
    end
}

/// The characters of `text`, one by one.
pub fn chars_of(text: &str) -> (chars: Vec<char>)
    ensures
        chars@ == text@,
{
    let mut chars: Vec<char> = Vec::new();
    for c in it: text.chars()
        invariant
            it.seq() == text@,
            chars@ == text@.take(it.index()),
    {
        chars.push(c);
    }
    chars
}

/// The text made of the characters `chars[from..to]`.
pub fn text_of(chars: &[char], from: usize, to: usize) -> (text: String)
    requires
        from <= to <= chars@.len(),
    ensures
        text@ == chars@.subrange(from as int, to as int),
{
    let mut text = String::new();
    let mut at: usize = from;
    while at < to
        invariant
            from <= at <= to <= chars@.len(),
            text@ == chars@.subrange(from as int, at as int),
        decreases to - at,
    {
        text.push(chars[at]);
        at += 1;
    }
    text
}

/// `String::push` appends one character to the text.
pub assume_specification[ String::push ](text: &mut String, c: char)
    ensures
        final(text)@ == old(text)@.push(c),
;

} // verus!
