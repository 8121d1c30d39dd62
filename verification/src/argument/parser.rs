//! Parsers: each converts a raw token to a typed value, and hands out the
//! validator that accepts exactly the tokens it converts.
use vstd::prelude::*;
use crate::argument::{find_option, int_of, is_option, parse_int, Validator};
use crate::error::{Error, InvalidCommandReason, Result};

verus! {

pub trait ArgumentParser {
    type Output;

    /// Whether `token` converts.
    spec fn accepts(&self, token: Seq<char>) -> bool;

    /// Whether `value` is what `token` converts to.
    spec fn converts(&self, token: Seq<char>, value: Self::Output) -> bool;

    /// Converts `token`; fails with `InvalidArgument` on a token that the
    /// parser does not accept.
    fn parse(&self, token: &str) -> (r: Result<Self::Output>)
        ensures
            match r {
                Ok(value) => self.accepts(token@) && self.converts(token@, value),
                Err(e) => !self.accepts(token@) && e == Error::InvalidCommand(
                    InvalidCommandReason::InvalidArgument,
                ),
            },
    ;

    /// The validator of this parser: it passes a token if and only if
    /// `parse` converts it.
    fn validator(&self) -> (validator: Validator)
        ensures
            forall|token: Seq<char>| validator.accepts(token) == self.accepts(token),
    ;
}

/// Validator and parser agree: the validator that a parser hands out passes
/// a token if and only if the parser converts it.
pub proof fn lemma_validator_agrees_with_parse<P: ArgumentParser>(
    parser: P,
    validator: Validator,
    token: &str,
    parsed: Result<P::Output>,
)
    requires
        call_ensures(P::validator, (&parser,), validator),
        call_ensures(P::parse, (&parser, token), parsed),
    ensures
        validator.accepts(token@) == (parsed is Ok),
{
}

/// Takes every token as it is.
#[derive(Debug, Clone)]
pub struct StringArgument;

impl ArgumentParser for StringArgument {
    type Output = String;

    open spec fn accepts(&self, token: Seq<char>) -> bool {
        true
    }

    open spec fn converts(&self, token: Seq<char>, value: String) -> bool {
        value@ == token
    }

    fn parse(&self, token: &str) -> (r: Result<String>) {
        Ok(token.to_owned())
    }

    fn validator(&self) -> (validator: Validator) {
        Validator::Any
    }
}

/// Takes the tokens that spell a 32-bit integer.
#[derive(Debug, Clone)]
pub struct IntArgument;

impl ArgumentParser for IntArgument {
    type Output = i32;

    open spec fn accepts(&self, token: Seq<char>) -> bool {
        int_of(token) is Some
    }

    open spec fn converts(&self, token: Seq<char>, value: i32) -> bool {
        int_of(token) == Some(value as int)
    }

    fn parse(&self, token: &str) -> (r: Result<i32>) {
        match parse_int(token) {
            Some(value) => Ok(value),
            None => Err(Error::InvalidCommand(InvalidCommandReason::InvalidArgument)),
        }
    }

    fn validator(&self) -> (validator: Validator) {
        Validator::Int
    }
}

/// Takes the tokens that spell an integer from `min` to `max`, both
/// included.
#[derive(Debug, Clone)]
pub struct BoundedIntArgument {
    min: i32,
    max: i32,
}

impl BoundedIntArgument {
    pub closed spec fn min(&self) -> i32 {
        self.min
    }

    pub closed spec fn max(&self) -> i32 {
        self.max
    }

    pub fn new(min: i32, max: i32) -> (parser: Self)
        ensures
            parser.min() == min,
            parser.max() == max,
    {
        Self { min, max }
    }
}

impl ArgumentParser for BoundedIntArgument {
    type Output = i32;

    open spec fn accepts(&self, token: Seq<char>) -> bool {
        int_of(token) matches Some(value) && self.min() <= value <= self.max()
    }

    open spec fn converts(&self, token: Seq<char>, value: i32) -> bool {
        int_of(token) == Some(value as int)
    }

    fn parse(&self, token: &str) -> (r: Result<i32>) {
        match parse_int(token) {
            Some(value) => {
                if value <= self.max && value >= self.min {
                    Ok(value)
                } else {
                    Err(Error::InvalidCommand(InvalidCommandReason::InvalidArgument))
                }
            },
            None => Err(Error::InvalidCommand(InvalidCommandReason::InvalidArgument)),
        }
    }

    fn validator(&self) -> (validator: Validator) {
        Validator::BoundedInt(self.min, self.max)
    }
}

/// Takes the tokens that equal one of its options, letter for letter.
#[derive(Debug, Clone)]
pub struct ChoiceArgument(Vec<String>);

impl ChoiceArgument {
    pub closed spec fn options(&self) -> Seq<String> {
        self.0@
    }

    pub fn new(options: Vec<String>) -> (parser: Self)
        ensures
            parser.options() == options@,
    {
        ChoiceArgument(options)
    }
}

impl ArgumentParser for ChoiceArgument {
    type Output = String;

    open spec fn accepts(&self, token: Seq<char>) -> bool {
        is_option(self.options(), token)
    }

    open spec fn converts(&self, token: Seq<char>, value: String) -> bool {
        value@ == token
    }

    fn parse(&self, token: &str) -> (r: Result<String>) {
        if find_option(&self.0, token) {
            Ok(token.to_owned())
        } else {
            Err(Error::InvalidCommand(InvalidCommandReason::InvalidArgument))
        }
    }

    fn validator(&self) -> (validator: Validator) {
        let mut options: Vec<String> = Vec::new();
        let mut i: usize = 0;
        while i < self.0.len()
            invariant
                i <= self.0@.len(),
                options@ == self.0@.take(i as int),
            decreases self.0@.len() - i,
        {
            options.push(self.0[i].clone());
            i += 1;
        }
        assert(self.0@.take(i as int) =~= self.0@);
        Validator::Choice(options)
    }
}

} // verus!
