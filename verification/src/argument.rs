//! Arguments of a command: what a node of the tree asks of a token.
use vstd::prelude::*;
use crate::parsers::chars::chars_of;

pub mod parser;

verus! {

pub open spec fn is_digit(c: char) -> bool {
    0x30 <= c as u32 <= 0x39
}

/// The number that a run of decimal digits spells.
pub open spec fn decimal(digits: Seq<char>) -> nat
    decreases digits.len(),
{
    if digits.len() == 0 {
        0
    } else {
        decimal(digits.drop_last()) * 10 + (digits.last() as u32 - 0x30) as nat
    }
}

/// Whether `token` opens with a sign.
pub open spec fn is_signed(token: Seq<char>) -> bool {
    token.len() > 0 && (token[0] == '-' || token[0] == '+')
}

/// What stands behind the sign of `token`, where it has one.
pub open spec fn digits_of(token: Seq<char>) -> Seq<char> {
    if is_signed(token) {
        token.skip(1)
    } else {
        token
    }
}

/// The integer that `token` spells: an optional sign, `+` or `-`, then one
/// or more decimal digits and nothing else, with a value that fits 32 bits.
pub open spec fn int_of(token: Seq<char>) -> Option<int> {
    let digits = digits_of(token);
    let value = if is_signed(token) && token[0] == '-' {
        -(decimal(digits) as int)
    } else {
        decimal(digits) as int
    };
    if digits.len() > 0 && (forall|i: int| 0 <= i < digits.len() ==> is_digit(#[trigger] digits[i]))
        && i32::MIN <= value <= i32::MAX {
        Some(value)
    } else {
        None
    }
}

/// A run of digits spells at least what any of its beginnings spells.
pub proof fn lemma_decimal_grows(digits: Seq<char>, k: int)
    requires
        0 <= k <= digits.len(),
    ensures
        decimal(digits.take(k)) <= decimal(digits),
    decreases digits.len(),
{
    if k < digits.len() {
        lemma_decimal_grows(digits.drop_last(), k);
        assert(digits.drop_last().take(k) =~= digits.take(k));
    } else {
        assert(digits.take(k) =~= digits);
    }
}

/// Reads `token` as a 32-bit integer.
pub fn parse_int(token: &str) -> (r: Option<i32>)
    ensures
        match int_of(token@) {
            Some(value) => r matches Some(n) && n == value,
            None => r is None,
        },
{
    let chars = chars_of(token);
    let n = chars.len();
    let signed = n > 0 && (chars[0] == '-' || chars[0] == '+');
    let negative = signed && chars[0] == '-';
    let start: usize = if signed {
        1
    } else {
        0
    };
    if start >= n {
        return None;
    }
    let ghost digits = digits_of(token@);
    let mut magnitude: u64 = 0;
    let mut i: usize = start;
    while i < n
        invariant
            chars@ == token@,
            n == chars@.len(),
            start <= i <= n,
            signed == is_signed(token@),
            start == if signed { 1usize } else { 0usize },
            digits == digits_of(token@),
            forall|k: int| 0 <= k < i - start ==> is_digit(#[trigger] digits[k]),
            magnitude == decimal(digits.take(i - start)),
            magnitude <= 0x8000_0000,
        decreases n - i,
    {
        let c: u32 = chars[i] as u32;
        if c < 0x30 || c > 0x39 {
            assert(!is_digit(digits[i - start]));
            return None;
        }
        proof {
            assert(digits.take(i - start + 1).drop_last() =~= digits.take(i - start));
            lemma_decimal_grows(digits, i - start + 1);
        }
        magnitude = magnitude * 10 + (c - 0x30) as u64;
        if magnitude > 0x8000_0000 {
            return None;
        }
        i += 1;
    }
    assert(digits.take(n - start) =~= digits);
    if negative {
        if magnitude == 0x8000_0000 {
            Some(i32::MIN)
        } else {
            Some(-(magnitude as i32))
        }
    } else if magnitude == 0x8000_0000 {
        None
    } else {
        Some(magnitude as i32)
    }
}

/// Decides whether a raw token could be the value of an argument.
#[derive(Debug)]
pub enum Validator {
    /// Every token passes.
    Any,
    /// Tokens that spell a 32-bit integer.
    Int,
    /// Tokens that spell an integer between the two bounds, both included.
    BoundedInt(i32, i32),
    /// Tokens that equal one of the options.
    Choice(Vec<String>),
}

/// Whether `token` is one of `options`.
pub open spec fn is_option(options: Seq<String>, token: Seq<char>) -> bool {
    exists|i: int| 0 <= i < options.len() && (#[trigger] options[i])@ == token
}

/// Looks `token` up among `options`.
pub fn find_option(options: &Vec<String>, token: &str) -> (found: bool)
    ensures
        found == is_option(options@, token@),
{
    let wanted = token.to_owned();
    let mut i: usize = 0;
    while i < options.len()
        invariant
            i <= options@.len(),
            wanted@ == token@,
            forall|k: int| 0 <= k < i ==> (#[trigger] options@[k])@ != token@,
        decreases options@.len() - i,
    {
        if options[i] == wanted {
            return true;
        }
        i += 1;
    }
    false
}

impl Validator {
    pub open spec fn accepts(&self, token: Seq<char>) -> bool {
        match self {
            Validator::Any => true,
            Validator::Int => int_of(token) is Some,
            Validator::BoundedInt(min, max) => int_of(token) matches Some(value) && *min <= value
                <= *max,
            Validator::Choice(options) => is_option(options@, token),
        }
    }

    pub fn check(&self, token: &str) -> (passes: bool)
        ensures
            passes == self.accepts(token@),
    {
        match self {
            Validator::Any => true,
            Validator::Int => parse_int(token).is_some(),
            Validator::BoundedInt(min, max) => match parse_int(token) {
                Some(value) => *min <= value && value <= *max,
                None => false,
            },
            Validator::Choice(options) => find_option(options, token),
        }
    }
}

/// What an argument node of the command tree holds: the name its value is
/// bound to, whether a command may leave it out, and which tokens it takes.
pub struct Argument {
    pub validator: Validator,
    pub name: String,
    pub required: bool,
}

impl Argument {
    /// Whether `sample` could be the value of this argument.
    pub open spec fn accepts(&self, sample: Seq<char>) -> bool {
        self.validator.accepts(sample)
    }

    pub fn new(validator: Validator, name: String, required: bool) -> (argument: Self)
        ensures
            argument == (Argument { validator, name, required }),
    {
        Self { validator, name, required }
    }

    pub fn matches(&self, sample: &str) -> (passes: bool)
        ensures
            passes == self.accepts(sample@),
    {
        self.validator.check(sample)
    }

    pub fn is_required(&self) -> (required: bool)
        ensures
            required == self.required,
    {
        self.required
    }
}

} // verus!
