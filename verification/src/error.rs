use vstd::prelude::*;

verus! {

/// Why a command line could not be turned into a handler invocation.
#[derive(Debug, PartialEq, Eq, Structural)]
pub enum InvalidCommandReason {
    /// No path through the command tree matches the positional tokens, or
    /// the line does not start with the dispatcher's prefix.
    UnknownCommand,
    /// A handler asked for an argument that was never bound.
    MissingArgument,
    /// A bound value was rejected by the parser that was asked to convert it.
    InvalidArgument,
    UnknownArgument,
    Unauthorised,
    /// A quoted string is malformed: it is never closed, or holds an escape
    /// sequence that the tokenizer does not know.
    UnclosedQuote,
}

#[derive(Debug, PartialEq, Eq, Structural)]
pub enum Error {
    InvalidCommand(InvalidCommandReason),
    /// A handler failed; the dispatcher hands the failure through untouched.
    ExecutionFailed,
    NotACommand,
    /// A dispatcher was built without a context factory or a base context.
    IncompleteBuilder,
}

pub type Result<T> = std::result::Result<T, Error>;

impl Error {
    /// The name of the error, as text.
    pub fn describe(&self) -> (text: String)
        ensures
            text@ == self.description(),
    {
        match self {
            Error::InvalidCommand(InvalidCommandReason::UnknownCommand) => String::from_str("InvalidCommand(UnknownCommand)"),
            Error::InvalidCommand(InvalidCommandReason::MissingArgument) => String::from_str("InvalidCommand(MissingArgument)"),
            Error::InvalidCommand(InvalidCommandReason::InvalidArgument) => String::from_str("InvalidCommand(InvalidArgument)"),
            Error::InvalidCommand(InvalidCommandReason::UnknownArgument) => String::from_str("InvalidCommand(UnknownArgument)"),
            Error::InvalidCommand(InvalidCommandReason::Unauthorised) => String::from_str("InvalidCommand(Unauthorised)"),
            Error::InvalidCommand(InvalidCommandReason::UnclosedQuote) => String::from_str("InvalidCommand(UnclosedQuote)"),
            Error::ExecutionFailed => String::from_str("ExecutionFailed"),
            Error::NotACommand => String::from_str("NotACommand"),
            Error::IncompleteBuilder => String::from_str("IncompleteBuilder"),
        }
    }

    pub open spec fn description(&self) -> Seq<char> {
        match self {
            Error::InvalidCommand(InvalidCommandReason::UnknownCommand) => "InvalidCommand(UnknownCommand)"@,
            Error::InvalidCommand(InvalidCommandReason::MissingArgument) => "InvalidCommand(MissingArgument)"@,
            Error::InvalidCommand(InvalidCommandReason::InvalidArgument) => "InvalidCommand(InvalidArgument)"@,
            Error::InvalidCommand(InvalidCommandReason::UnknownArgument) => "InvalidCommand(UnknownArgument)"@,
            Error::InvalidCommand(InvalidCommandReason::Unauthorised) => "InvalidCommand(Unauthorised)"@,
            Error::InvalidCommand(InvalidCommandReason::UnclosedQuote) => "InvalidCommand(UnclosedQuote)"@,
            Error::ExecutionFailed => "ExecutionFailed"@,
            Error::NotACommand => "NotACommand"@,
            Error::IncompleteBuilder => "IncompleteBuilder"@,
        }
    }
}

} // verus!
