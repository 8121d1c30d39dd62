//! What holds of every search through a command tree.
use vstd::prelude::*;
use crate::argument::Argument;
use crate::dispatcher::{
    literals_lead, named, positional, step, Bindings, Command, Dispatcher, ExecContext, NodeType,
};
use crate::error::{Error, InvalidCommandReason, Result};
use crate::parsers::tokenize::Lexeme;
use std::fmt::Debug;

verus! {

/// Literal precedence: where the children of a node are in order, as
/// those of every built node are, and the `at`-th child is the first
/// literal that equals the next token, the search below the node is
/// decided by the search below that child, unless the latter finds no
/// match. No argument child is tried before it.
pub proof fn lemma_literal_precedence<C: Debug, O, H: Fn(&ExecContext<C>) -> Result<O>>(
    node: Command<C, O, H>,
    at: int,
    offset: int,
    tokens: Seq<Seq<char>>,
    named: Bindings,
    bound: Bindings,
)
    requires
        literals_lead(node.children()),
        0 <= at < node.children().len(),
        0 <= offset < tokens.len(),
        node.children()[at].node() matches NodeType::Literal(text) && text@ == tokens[offset],
        forall|i: int|
            0 <= i < at ==> !((#[trigger] node.children()[i]).node() matches NodeType::Literal(text)
                && text@ == tokens[offset]),
        !(node.children()[at].search(0, offset + 1, tokens, named, bound) is NoMatch),
    ensures
        node.search(0, offset, tokens, named, bound) == node.children()[at].search(
            0,
            offset + 1,
            tokens,
            named,
            bound,
        ),
{
    lemma_search_skips_other_literals(node, 0, at, offset, tokens, named, bound);
}

/// The children from `from` up to `at` being literals that differ from the
/// next token, the search from the `from`-th child on is the search from the
/// `at`-th on.
proof fn lemma_search_skips_other_literals<C: Debug, O, H: Fn(&ExecContext<C>) -> Result<O>>(
    node: Command<C, O, H>,
    from: int,
    at: int,
    offset: int,
    tokens: Seq<Seq<char>>,
    named: Bindings,
    bound: Bindings,
)
    requires
        0 <= from <= at <= node.children().len(),
        0 <= offset < tokens.len(),
        forall|i: int|
            from <= i < at ==> ((#[trigger] node.children()[i]).node() matches NodeType::Literal(
                text,
            ) && text@ != tokens[offset]),
    ensures
        node.search(from, offset, tokens, named, bound) == node.search(
            at,
            offset,
            tokens,
            named,
            bound,
        ),
    decreases at - from,
{
    if from < at {
        lemma_search_skips_other_literals(node, from + 1, at, offset, tokens, named, bound);
    }
}

/// Named overrides positional: where a command holds a named token whose
/// key is the name of an argument and whose value the argument accepts, and
/// no later named token has that key, the argument binds that value and uses
/// up no positional token, whatever the positional tokens are.
pub proof fn lemma_named_binds_without_consuming(
    argument: Argument,
    command: Seq<Lexeme>,
    at: int,
    offset: int,
    bound: Bindings,
)
    requires
        0 <= at < command.len(),
        command[at] matches Lexeme::Named(key, value) && key == argument.name@ && argument.accepts(
            value,
        ),
        forall|j: int|
            at < j < command.len() ==> !(#[trigger] command[j] matches Lexeme::Named(key, _) && key
                == argument.name@),
    ensures
        command[at] matches Lexeme::Named(_, value) && step(
            NodeType::Argument(argument),
            offset,
            positional(command),
            named(command),
            bound,
        ) == Some((offset, bound.insert(argument.name@, value))),
{
    lemma_last_named_stands(command, at);
}

/// The value of a key among the named arguments of a command is that of
/// the last named token with the key.
pub proof fn lemma_last_named_stands(command: Seq<Lexeme>, at: int)
    requires
        0 <= at < command.len(),
        command[at] is Named,
        forall|j: int|
            at < j < command.len() ==> !(#[trigger] command[j] matches Lexeme::Named(key, _) && key
                == command[at]->Named_0),
    ensures
        named(command).contains_key(command[at]->Named_0),
        named(command)[command[at]->Named_0] == command[at]->Named_1,
    decreases command.len(),
{
    if at < command.len() - 1 {
        lemma_last_named_stands(command.drop_last(), at);
    }
}

/// Unknown command: where tokens are left and no child of a node takes the
/// command, the search below the node finds no match.
pub proof fn lemma_no_child_no_match<C: Debug, O, H: Fn(&ExecContext<C>) -> Result<O>>(
    node: Command<C, O, H>,
    from: int,
    offset: int,
    tokens: Seq<Seq<char>>,
    named: Bindings,
    bound: Bindings,
)
    requires
        0 <= from,
        0 <= offset < tokens.len(),
        forall|k: int|
            0 <= k < node.children().len() ==> step(
                (#[trigger] node.children()[k]).node(),
                offset,
                tokens,
                named,
                bound,
            ) is None,
    ensures
        node.search(from, offset, tokens, named, bound) is NoMatch,
    decreases node.children().len() - from,
{
    if from < node.children().len() {
        lemma_no_child_no_match(node, from + 1, offset, tokens, named, bound);
    }
}

/// Unknown command: a command with a positional token that no child of
/// the root takes, neither a literal nor an argument, fails with
/// `UnknownCommand`, whatever context it starts from.
pub proof fn lemma_unknown_command<
    C: Debug,
    O,
    B,
    H: Fn(&ExecContext<C>) -> Result<O>,
    F: Fn(&B) -> C,
>(dispatcher: Dispatcher<C, O, B, H, F>, command: Seq<Lexeme>, context: C, result: Result<O>)
    requires
        positional(command).len() > 0,
        forall|k: int|
            0 <= k < dispatcher.root().children().len() ==> step(
                (#[trigger] dispatcher.root().children()[k]).node(),
                0,
                positional(command),
                named(command),
                Map::empty(),
            ) is None,
        dispatcher.command_result(command, context, result),
    ensures
        result == Err::<O, Error>(Error::InvalidCommand(InvalidCommandReason::UnknownCommand)),
{
    lemma_no_child_no_match(
        dispatcher.root(),
        0,
        0,
        positional(command),
        named(command),
        Map::empty(),
    );
}

} // verus!
