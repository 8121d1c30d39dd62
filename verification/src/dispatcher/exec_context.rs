//! The state of one command while it runs: the arguments bound so far and
//! the caller's own context.
use vstd::prelude::*;
use crate::argument::parser::ArgumentParser;
use crate::error::{Error, InvalidCommandReason, Result};
use fnv::FnvHashMap;
use std::fmt::Debug;

verus! {

/// `fnv::FnvHasher`, the hasher of the argument table. Nothing is said of
/// it: the table is only spoken of through `entries`.
#[verifier::external_type_specification]
#[verifier::external_body]
pub struct ExFnvHasher(fnv::FnvHasher);

/// `std::hash::BuildHasherDefault`, which makes a table's hashers.
#[verifier::external_type_specification]
#[verifier::external_body]
#[verifier::reject_recursive_types(H)]
pub struct ExBuildHasherDefault<H>(std::hash::BuildHasherDefault<H>);

/// Argument names and the raw values bound to them.
pub type Bindings = Map<Seq<char>, Seq<char>>;

/// What an `FnvHashMap` from text to text holds: each key with its value.
pub uninterp spec fn entries(table: FnvHashMap<String, String>) -> Bindings;

/// `FnvHashMap::default`: a table that holds nothing.
#[verifier::external_body]
fn empty_table() -> (table: FnvHashMap<String, String>)
    ensures
        entries(table) == Bindings::empty(),
{
    FnvHashMap::default()
}

/// `HashMap::insert` on an `FnvHashMap`: afterwards `name` has the value
/// `value`, in place of any it had before, and every other key is as it was.
#[verifier::external_body]
fn table_insert(table: &mut FnvHashMap<String, String>, name: String, value: String)
    ensures
        entries(*final(table)) == entries(*old(table)).insert(name@, value@),
{
    table.insert(name, value);
}

/// `HashMap::get` on an `FnvHashMap`: the value of `name`, where the table
/// holds the key.
#[verifier::external_body]
fn table_get<'a>(table: &'a FnvHashMap<String, String>, name: &str) -> (found: Option<&'a String>)
    ensures
        match found {
            Some(value) => entries(*table).contains_key(name@) && entries(*table)[name@] == value@,
            None => !entries(*table).contains_key(name@),
        },
{
    table.get(name)
}

#[derive(Debug)]
pub struct ExecContext<C: Debug> {
    arguments: FnvHashMap<String, String>,
    context: C,
}

impl<C: Debug> ExecContext<C> {
    /// The arguments bound so far.
    pub closed spec fn arguments(&self) -> Bindings {
        entries(self.arguments)
    }

    /// The caller's context.
    pub closed spec fn inner(&self) -> C {
        self.context
    }

    pub fn new(context: C) -> (made: Self)
        ensures
            made.arguments() == Bindings::empty(),
            made.inner() == context,
    {
        Self { arguments: empty_table(), context }
    }

    /// The value bound to `name`, converted by `parser`. Fails with
    /// `MissingArgument` where nothing is bound to `name`, and with
    /// `InvalidArgument` where the parser does not take what is bound.
    pub fn get<P: ArgumentParser>(&self, name: &str, parser: P) -> (r: Result<P::Output>)
        ensures
            match r {
                Ok(value) => self.arguments().contains_key(name@) && parser.accepts(
                    self.arguments()[name@],
                ) && parser.converts(self.arguments()[name@], value),
                Err(e) => if self.arguments().contains_key(name@) {
                    !parser.accepts(self.arguments()[name@]) && e == Error::InvalidCommand(
                        InvalidCommandReason::InvalidArgument,
                    )
                } else {
                    e == Error::InvalidCommand(InvalidCommandReason::MissingArgument)
                },
            },
    {
        match table_get(&self.arguments, name) {
            Some(token) => parser.parse(token.as_str()),
            None => Err(Error::InvalidCommand(InvalidCommandReason::MissingArgument)),
        }
    }

    pub fn context(&self) -> (context: &C)
        ensures
            *context == self.inner(),
    {
        &self.context
    }

    /// Binds `value` to `name`, in place of what was bound to it before.
    pub fn insert_argument(&mut self, name: String, value: String)
        ensures
            final(self).arguments() == old(self).arguments().insert(name@, value@),
            final(self).inner() == old(self).inner(),
    {
        table_insert(&mut self.arguments, name, value);
    }
}

} // verus!
