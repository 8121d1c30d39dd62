//! The command tree and the dispatcher that matches a line against it.
use vstd::prelude::*;
use vstd::hash_map::StringHashMap;
use crate::argument::parser::ArgumentParser;
use crate::argument::Argument;
use crate::error::{Error, InvalidCommandReason, Result};
use crate::parsers::chars::{run_end, CharClass};
use crate::parsers::tokenize::{lexemes_of, tokenize, tokens_from, Lexeme, Token};
use nom::bytes::complete::tag;
use nom::character::complete::multispace0;
use nom::IResult;
use std::fmt::Debug;
use std::marker::PhantomData;

pub mod builder;
pub mod exec_context;
pub mod laws;

pub use builder::{CommandBuilder, DispatcherBuilder};
pub use exec_context::{Bindings, ExecContext};

verus! {

pub enum NodeType {
    Argument(Argument),
    Literal(String),
}

/// What the search for a handler ends in.
pub enum Outcome<H> {
    /// No path of the tree takes the tokens: the search may go on elsewhere.
    NoMatch,
    /// A path takes all the tokens and ends at a node without a handler: the
    /// search is over, and the command is unknown.
    Incomplete,
    /// A path takes all the tokens and ends at a node with this handler,
    /// having bound these arguments.
    Found(H, Bindings),
}

/// What the search hands to the code that runs the command.
enum ExecState<'a, H> {
    Working,
    Incomplete,
    Found(&'a H),
}

/// A node of the command tree, with the subtree below it.
#[allow(clippy::type_complexity)]
#[verifier::reject_recursive_types(C)]
#[verifier::reject_recursive_types(O)]
pub struct Command<C: Debug, O, H: Fn(&ExecContext<C>) -> Result<O>> {
    children: Vec<Command<C, O, H>>,
    node: NodeType,
    handler: Option<H>,
    marker: PhantomData<(C, O)>,
}

/// The texts of positional tokens.
pub open spec fn texts(tokens: Seq<String>) -> Seq<Seq<char>> {
    tokens.map_values(|token: String| token@)
}

/// The texts of named arguments.
pub open spec fn values(named: Map<Seq<char>, String>) -> Bindings {
    named.map_values(|value: String| value@)
}

/// The arguments that a list of bindings amounts to: where a name is bound
/// more than once, the last binding stands.
pub open spec fn bound_by(bindings: Seq<(String, String)>) -> Bindings
    decreases bindings.len(),
{
    if bindings.len() == 0 {
        Map::empty()
    } else {
        bound_by(bindings.drop_last()).insert(bindings.last().0@, bindings.last().1@)
    }
}

/// Whether `node` takes the command where it stands, with `offset`
/// positional tokens used up and `bound` bound so far; and if so, how many
/// tokens are used up and what is bound afterwards.
///
/// A literal takes the next positional token where it equals the literal's
/// text. An argument binds the named token of its name where that token is
/// valid, and uses up no positional token; else it binds and uses up the
/// next positional token where that one is valid; else it is passed over,
/// nothing bound and nothing used up, where it is optional.
pub open spec fn step(
    node: NodeType,
    offset: int,
    tokens: Seq<Seq<char>>,
    named: Bindings,
    bound: Bindings,
) -> Option<(int, Bindings)> {
    match node {
        NodeType::Literal(text) => if 0 <= offset < tokens.len() && tokens[offset] == text@ {
            Some((offset + 1, bound))
        } else {
            None
        },
        NodeType::Argument(argument) => if named.contains_key(argument.name@) && argument.accepts(
            named[argument.name@],
        ) {
            Some((offset, bound.insert(argument.name@, named[argument.name@])))
        } else if 0 <= offset < tokens.len() && argument.accepts(tokens[offset]) {
            Some((offset + 1, bound.insert(argument.name@, tokens[offset])))
        } else if !argument.required {
            Some((offset, bound))
        } else {
            None
        },
    }
}

/// The positional tokens of a command: the texts of its simple tokens, in
/// their order.
pub open spec fn positional(command: Seq<Lexeme>) -> Seq<Seq<char>>
    decreases command.len(),
{
    if command.len() == 0 {
        Seq::empty()
    } else {
        let before = positional(command.drop_last());
        match command.last() {
            Lexeme::Simple(text) => before.push(text),
            _ => before,
        }
    }
}

/// The named arguments of a command: each key with the value of the last
/// named token that has it.
pub open spec fn named(command: Seq<Lexeme>) -> Bindings
    decreases command.len(),
{
    if command.len() == 0 {
        Map::empty()
    } else {
        let before = named(command.drop_last());
        match command.last() {
            Lexeme::Named(key, value) => before.insert(key, value),
            _ => before,
        }
    }
}

/// The texts of the simple tokens among `tokens`, in their order.
pub fn unwrap_tokens(tokens: Vec<Token>) -> (output: Vec<String>)
    ensures
        texts(output@) == positional(lexemes_of(tokens@)),
{
    let mut output: Vec<String> = Vec::new();
    let ghost all = tokens@;
    for token in it: tokens
        invariant
            it.seq() == all,
            texts(output@) == positional(lexemes_of(all.take(it.index()))),
    {
        proof {
            let i = it.index();
            assert(lexemes_of(all.take(i + 1)).drop_last() =~= lexemes_of(all.take(i)));
        }
        if let Token::Simple(content) = token {
            output.push(content);
        }
    }
    assert(all.take(all.len() as int) =~= all);
    output
}

/// The named arguments among `tokens`: where a key comes more than once,
/// its last value stands.
pub fn map_named_arguments(tokens: Vec<Token>) -> (output: StringHashMap<String>)
    ensures
        values(output@) == named(lexemes_of(tokens@)),
{
    let mut output: StringHashMap<String> = StringHashMap::new();
    let ghost all = tokens@;
    for token in it: tokens
        invariant
            it.seq() == all,
            values(output@) == named(lexemes_of(all.take(it.index()))),
    {
        proof {
            let i = it.index();
            assert(lexemes_of(all.take(i + 1)).drop_last() =~= lexemes_of(all.take(i)));
        }
        if let Token::Named(key, value) = token {
            output.insert(key, value);
        }
    }
    assert(all.take(all.len() as int) =~= all);
    output
}

/// Whether every literal node among `children` stands before every node
/// that is not one.
pub open spec fn literals_lead<C: Debug, O, H: Fn(&ExecContext<C>) -> Result<O>>(
    children: Seq<Command<C, O, H>>,
) -> bool {
    forall|i: int, j: int|
        0 <= i < j < children.len() && (#[trigger] children[j]).node() is Literal ==> (
        #[trigger] children[i]).node() is Literal
}

impl<C: Debug, O, H: Fn(&ExecContext<C>) -> Result<O>> Command<C, O, H> {
    pub closed spec fn children(&self) -> Seq<Command<C, O, H>> {
        self.children@
    }

    pub closed spec fn node(&self) -> NodeType {
        self.node
    }

    pub closed spec fn handler(&self) -> Option<H> {
        self.handler
    }

    /// The handler of the node can be called, whatever the context, and
    /// the children are in order: the literal ones lead.
    #[verifier::type_invariant]
    spec fn well_formed(self) -> bool {
        &&& self.handler matches Some(handler) ==> forall|context: &ExecContext<C>|
            call_requires(handler, (context,))
        &&& literals_lead(self.children@)
    }

    /// The search for the handler of a command, below this node: `offset`
    /// positional tokens are used up, `bound` is bound so far, and the
    /// children before the `from`-th have been tried in vain.
    ///
    /// With all tokens used up the search ends at this node. Otherwise the
    /// children are tried in their order, each from the same state: the
    /// first one that takes the command (see `step`) and below which the
    /// search does not end in `NoMatch` decides.
    pub open spec fn search(
        &self,
        from: int,
        offset: int,
        tokens: Seq<Seq<char>>,
        named: Bindings,
        bound: Bindings,
    ) -> Outcome<H>
        decreases self, self.children().len() - from,
    {
        if offset >= tokens.len() {
            match self.handler() {
                Some(handler) => Outcome::Found(handler, bound),
                None => Outcome::Incomplete,
            }
        } else if from < 0 || from >= self.children().len() {
            Outcome::NoMatch
        } else {
            let child = self.children()[from];
            match step(child.node(), offset, tokens, named, bound) {
                Some((next, extended)) => match child.search(0, next, tokens, named, extended) {
                    Outcome::NoMatch => self.search(from + 1, offset, tokens, named, bound),
                    found => found,
                },
                None => self.search(from + 1, offset, tokens, named, bound),
            }
        }
    }

    /// Starts a node that takes the token `name` and no other.
    pub fn literal(name: &str) -> (builder: CommandBuilder<C, O, H>)
        ensures
            builder.children() == Seq::<Command<C, O, H>>::empty(),
            builder.node() matches NodeType::Literal(text) && text@ == name@,
            builder.handler() is None,
    {
        CommandBuilder::literal(name)
    }

    /// Starts a node that binds a token `parser` converts to `name`.
    pub fn argument<P: ArgumentParser>(name: &str, parser: P, required: bool) -> (builder:
        CommandBuilder<C, O, H>)
        ensures
            builder.children() == Seq::<Command<C, O, H>>::empty(),
            builder.handler() is None,
            builder.node() matches NodeType::Argument(argument) && argument.name@ == name@
                && argument.required == required && forall|token: Seq<char>|
                argument.accepts(token) == parser.accepts(token),
    {
        CommandBuilder::argument(parser, name, required)
    }

    pub fn is_literal(&self) -> (r: bool)
        ensures
            r == (self.node() is Literal),
    {
        matches!(self.node, NodeType::Literal(_))
    }

    pub fn is_argument(&self) -> (r: bool)
        ensures
            r == (self.node() is Argument),
    {
        matches!(self.node, NodeType::Argument(_))
    }

    /// Lets this node take the command where it stands: returns the number
    /// of positional tokens used up afterwards, and records in `bound`
    /// what the node binds.
    fn process(
        &self,
        offset: usize,
        tokens: &[String],
        named_arguments: &StringHashMap<String>,
        bound: &mut Vec<(String, String)>,
    ) -> (next: Option<usize>)
        requires
            offset < tokens@.len(),
        ensures
            match step(
                self.node(),
                offset as int,
                texts(tokens@),
                values(named_arguments@),
                bound_by(old(bound)@),
            ) {
                Some((after, extended)) => {
                    &&& next matches Some(used) && used == after
                    &&& offset <= after <= tokens@.len()
                    &&& bound_by(final(bound)@) == extended
                },
                None => next is None,
            },
            final(bound)@ == old(bound)@ || (next is Some && final(bound)@.len() > 0
                && final(bound)@.drop_last() == old(bound)@),
    {
        match &self.node {
            NodeType::Literal(name) => {
                if *name == tokens[offset] {
                    Some(offset + 1)
                } else {
                    None
                }
            },
            NodeType::Argument(argument) => {
                let ghost before = bound@;
                match named_arguments.get(argument.name.as_str()) {
                    Some(named) => {
                        if argument.matches(named.as_str()) {
                            bound.push((argument.name.clone(), named.clone()));
                            assert(bound@.drop_last() =~= before);
                            return Some(offset);
                        }
                    },
                    None => {},
                }
                let token = &tokens[offset];
                if argument.matches(token.as_str()) {
                    bound.push((argument.name.clone(), token.clone()));
                    assert(bound@.drop_last() =~= before);
                    Some(offset + 1)
                } else if !argument.is_required() {
                    Some(offset)
                } else {
                    None
                }
            },
        }
    }

    /// Searches the handler of a command below this node.
    fn execute<'a>(
        &'a self,
        offset: usize,
        tokens: &[String],
        named_arguments: &StringHashMap<String>,
        bound: &mut Vec<(String, String)>,
    ) -> (state: ExecState<'a, H>)
        requires
            offset <= tokens@.len(),
        ensures
            match self.search(
                0,
                offset as int,
                texts(tokens@),
                values(named_arguments@),
                bound_by(old(bound)@),
            ) {
                Outcome::NoMatch => state is Working && final(bound)@ == old(bound)@,
                Outcome::Incomplete => state is Incomplete,
                Outcome::Found(handler, arguments) => state matches ExecState::Found(found)
                    && *found == handler && bound_by(final(bound)@) == arguments
                    && forall|context: &ExecContext<C>| call_requires(handler, (context,)),
            },
        decreases self,
    {
        if offset >= tokens.len() {
            proof {
                use_type_invariant(self);
            }
            return match &self.handler {
                Some(handler) => ExecState::Found(handler),
                None => ExecState::Incomplete,
            };
        }
        let ghost start = bound@;
        let mark = bound.len();
        let mut at: usize = 0;
        while at < self.children.len()
            invariant
                at <= self.children@.len(),
                offset < tokens@.len(),
                bound@ == start,
                start == old(bound)@,
                mark == start.len(),
                self.search(0, offset as int, texts(tokens@), values(named_arguments@), bound_by(start))
                    == self.search(
                    at as int,
                    offset as int,
                    texts(tokens@),
                    values(named_arguments@),
                    bound_by(start),
                ),
            decreases self.children@.len() - at,
        {
            let child = &self.children[at];
            match child.process(offset, tokens, named_arguments, bound) {
                Some(next) => {
                    let state = child.execute(next, tokens, named_arguments, bound);
                    if let ExecState::Working = state {
                        if bound.len() > mark {
                            bound.pop();
                        }
                    } else {
                        return state;
                    }
                },
                None => {},
            }
            at += 1;
        }
        ExecState::Working
    }
}

/// The tokens of the command that is still open at the end of `lexemes`:
/// those behind the last separator.
pub open spec fn open_command(lexemes: Seq<Lexeme>) -> Seq<Lexeme>
    decreases lexemes.len(),
{
    if lexemes.len() == 0 {
        Seq::empty()
    } else {
        match lexemes.last() {
            Lexeme::End => Seq::empty(),
            lexeme => open_command(lexemes.drop_last()).push(lexeme),
        }
    }
}

/// The commands that a separator closes within `lexemes`, in their order;
/// a separator with no token before it closes nothing.
pub open spec fn closed_commands(lexemes: Seq<Lexeme>) -> Seq<Seq<Lexeme>>
    decreases lexemes.len(),
{
    if lexemes.len() == 0 {
        Seq::empty()
    } else {
        let before = closed_commands(lexemes.drop_last());
        let open = open_command(lexemes.drop_last());
        if lexemes.last() is End && open.len() > 0 {
            before.push(open)
        } else {
            before
        }
    }
}

/// The commands of a line: its tokens with a separator put behind them, cut
/// at the separators.
pub open spec fn commands_of(lexemes: Seq<Lexeme>) -> Seq<Seq<Lexeme>> {
    closed_commands(lexemes.push(Lexeme::End))
}

/// The commands closed within the first `i` tokens are the first of those
/// closed within all of them.
pub proof fn lemma_closed_commands_grow(lexemes: Seq<Lexeme>, i: int)
    requires
        0 <= i <= lexemes.len(),
    ensures
        closed_commands(lexemes.take(i)).is_prefix_of(closed_commands(lexemes)),
    decreases lexemes.len(),
{
    if i < lexemes.len() {
        lemma_closed_commands_grow(lexemes.drop_last(), i);
        assert(lexemes.drop_last().take(i) =~= lexemes.take(i));
    } else {
        assert(lexemes.take(i) =~= lexemes);
    }
}

/// Matches lines against a command tree and runs the handlers they lead
/// to, each on a context of its own that the context factory makes from
/// the base context.
#[verifier::reject_recursive_types(C)]
#[verifier::reject_recursive_types(O)]
pub struct Dispatcher<C: Debug, O, B, H: Fn(&ExecContext<C>) -> Result<O>, F: Fn(&B) -> C> {
    root: Command<C, O, H>,
    prefix: String,
    context_factory: F,
    base_context: B,
}

/// `nom::character::complete::multispace0` on a `&str`: what is left of
/// `text` behind its leading spaces, tabs, carriage returns and line feeds.
/// On a `&str` the parser does not fail.
#[verifier::external_body]
fn skip_multispace<'a>(text: &'a str) -> (rest: &'a str)
    ensures
        rest@ == text@.skip(run_end(text@, 0, CharClass::Space)),
{
    let parsed: IResult<&str, &str, nom::error::Error<&str>> = multispace0(text);
    match parsed {
        Ok((rest, _)) => rest,
        Err(_) => text,
    }
}

/// `nom::bytes::complete::tag` on a `&str`: where `text` begins with
/// `prefix`, what is left of `text` behind it; nothing where it does not.
#[verifier::external_body]
fn strip_tag<'a>(prefix: &str, text: &'a str) -> (rest: Option<&'a str>)
    ensures
        match rest {
            Some(rest) => prefix@.is_prefix_of(text@) && rest@ == text@.skip(prefix@.len() as int),
            None => !prefix@.is_prefix_of(text@),
        },
{
    let parsed: IResult<&str, &str, nom::error::Error<&str>> = tag(prefix)(text);
    match parsed {
        Ok((rest, _)) => Some(rest),
        Err(_) => None,
    }
}

/// Sorts the tokens of a command into the named ones and the others, each
/// kind in its order.
fn partition(tokens: Vec<Token>) -> (parts: (Vec<Token>, Vec<Token>))
    ensures
        named(lexemes_of(parts.0@)) == named(lexemes_of(tokens@)),
        positional(lexemes_of(parts.1@)) == positional(lexemes_of(tokens@)),
{
    let mut named_arguments: Vec<Token> = Vec::new();
    let mut others: Vec<Token> = Vec::new();
    let ghost all = tokens@;
    for token in it: tokens
        invariant
            it.seq() == all,
            named(lexemes_of(named_arguments@)) == named(lexemes_of(all.take(it.index()))),
            positional(lexemes_of(others@)) == positional(lexemes_of(all.take(it.index()))),
    {
        proof {
            let i = it.index();
            assert(lexemes_of(all.take(i + 1)).drop_last() =~= lexemes_of(all.take(i)));
            assert(lexemes_of(named_arguments@.push(token)).drop_last() =~= lexemes_of(
                named_arguments@,
            ));
            assert(lexemes_of(others@.push(token)).drop_last() =~= lexemes_of(others@));
        }
        if matches!(token, Token::Named(_, _)) {
            named_arguments.push(token);
        } else {
            others.push(token);
        }
    }
    assert(all.take(all.len() as int) =~= all);
    (named_arguments, others)
}

impl<C: Debug, O, B, H: Fn(&ExecContext<C>) -> Result<O>, F: Fn(&B) -> C> Dispatcher<C, O, B, H, F> {
    pub closed spec fn root(&self) -> Command<C, O, H> {
        self.root
    }

    pub closed spec fn prefix(&self) -> Seq<char> {
        self.prefix@
    }

    pub closed spec fn factory(&self) -> F {
        self.context_factory
    }

    pub closed spec fn base(&self) -> B {
        self.base_context
    }

    /// The context factory can be called, whatever the base context.
    #[verifier::type_invariant]
    spec fn factory_callable(self) -> bool {
        forall|base: &B| call_requires(self.context_factory, (base,))
    }

    /// What is left of `command` behind leading blanks and the prefix,
    /// where the prefix stands there.
    pub open spec fn line_of(&self, command: Seq<char>) -> Option<Seq<char>> {
        let trimmed = command.skip(run_end(command, 0, CharClass::Space));
        if self.prefix().is_prefix_of(trimmed) {
            Some(trimmed.skip(self.prefix().len() as int))
        } else {
            None
        }
    }

    /// Whether `context` may come from the factory that a call uses: the
    /// one given with the call, else the dispatcher's own.
    pub open spec fn makes<G: Fn(&B) -> C>(&self, given: Option<G>, context: C) -> bool {
        match given {
            Some(factory) => call_ensures(factory, (&self.base(),), context),
            None => call_ensures(self.factory(), (&self.base(),), context),
        }
    }

    /// Whether `result` may be what one command gives when it starts from
    /// `context`: where the search through the tree finds a handler, what
    /// the handler returns on the arguments that the search bound; else
    /// the error `UnknownCommand`.
    pub open spec fn command_result(&self, command: Seq<Lexeme>, context: C, result: Result<O>) -> bool {
        match self.root().search(0, 0, positional(command), named(command), Map::empty()) {
            Outcome::Found(handler, arguments) => exists|state: ExecContext<C>|
                state.arguments() == arguments && state.inner() == context && #[trigger] call_ensures(
                    handler,
                    (&state,),
                    result,
                ),
            _ => result == Err::<O, Error>(
                Error::InvalidCommand(InvalidCommandReason::UnknownCommand),
            ),
        }
    }

    /// Whether `result` may be what one command gives, on some context that
    /// the factory makes.
    pub open spec fn runs<G: Fn(&B) -> C>(
        &self,
        given: Option<G>,
        command: Seq<Lexeme>,
        result: Result<O>,
    ) -> bool {
        exists|context: C| self.makes(given, context) && #[trigger] self.command_result(command, context, result)
    }

    /// Whether one command may succeed.
    pub open spec fn succeeds<G: Fn(&B) -> C>(&self, given: Option<G>, command: Seq<Lexeme>) -> bool {
        exists|output: O| self.runs(given, command, Ok(output))
    }

    /// Whether the `k`-th of `commands` may fail with `error`, those before
    /// it having succeeded.
    pub open spec fn fails_at<G: Fn(&B) -> C>(
        &self,
        given: Option<G>,
        commands: Seq<Seq<Lexeme>>,
        k: int,
        error: Error,
    ) -> bool {
        &&& 0 <= k < commands.len()
        &&& self.runs(given, commands[k], Err(error))
        &&& forall|j: int| 0 <= j < k ==> self.succeeds(given, #[trigger] commands[j])
    }

    /// Whether `result` may be what a line of `commands` gives: the
    /// outputs of all of them in their order; or the error of the first
    /// one that fails, those before it having succeeded.
    pub open spec fn line_result<G: Fn(&B) -> C>(
        &self,
        given: Option<G>,
        commands: Seq<Seq<Lexeme>>,
        result: Result<Vec<O>>,
    ) -> bool {
        match result {
            Ok(outputs) => {
                &&& outputs@.len() == commands.len()
                &&& forall|k: int|
                    0 <= k < commands.len() ==> self.runs(given, #[trigger] commands[k], Ok(outputs@[k]))
            },
            Err(error) => exists|k: int| self.fails_at(given, commands, k, error),
        }
    }

    /// Whether `result` may be what dispatching the text `command` gives:
    /// `UnknownCommand` where the prefix does not stand at its start,
    /// `UnclosedQuote` where the rest cannot be cut into tokens, else what
    /// its commands give.
    pub open spec fn dispatched<G: Fn(&B) -> C>(
        &self,
        given: Option<G>,
        command: Seq<char>,
        result: Result<Vec<O>>,
    ) -> bool {
        match self.line_of(command) {
            None => result == Err::<Vec<O>, Error>(
                Error::InvalidCommand(InvalidCommandReason::UnknownCommand),
            ),
            Some(line) => match tokens_from(line, 0) {
                None => result == Err::<Vec<O>, Error>(
                    Error::InvalidCommand(InvalidCommandReason::UnclosedQuote),
                ),
                Some((lexemes, _)) => self.line_result(given, commands_of(lexemes), result),
            },
        }
    }

    pub fn builder() -> (builder: DispatcherBuilder<C, O, B, H, F>)
        ensures
            builder.root().children() == Seq::<Command<C, O, H>>::empty(),
            builder.root().handler() is None,
            builder.root().node() matches NodeType::Literal(text) && text@ == Seq::<char>::empty(),
            builder.set_prefix() is None,
            builder.factory() is None,
            builder.base() is None,
    {
        DispatcherBuilder::new()
    }

    /// Runs every command of the line `command` on a fresh context from
    /// the dispatcher's factory, and collects what the handlers return.
    pub fn run_command(&self, command: &str) -> (result: Result<Vec<O>>)
        ensures
            self.dispatched(None::<F>, command@, result),
    {
        self.command_in_ctx(command, None::<F>)
    }

    /// As `run_command`, with contexts from the factory `context` in place
    /// of the dispatcher's own.
    pub fn run_command_in_context<G: Fn(&B) -> C>(&self, command: &str, context: G) -> (result:
        Result<Vec<O>>)
        requires
            forall|base: &B| call_requires(context, (base,)),
        ensures
            self.dispatched(Some(context), command@, result),
    {
        self.command_in_ctx(command, Some(context))
    }

    fn command_in_ctx<G: Fn(&B) -> C>(&self, command: &str, context: Option<G>) -> (result: Result<
        Vec<O>,
    >)
        requires
            context matches Some(factory) ==> forall|base: &B| call_requires(factory, (base,)),
        ensures
            self.dispatched(context, command@, result),
    {
        // remove leading whitespace and prefix
        let trimmed = skip_multispace(command);
        let line = match strip_tag(self.prefix.as_str(), trimmed) {
            Some(rest) => rest,
            None => {
                return Err(Error::InvalidCommand(InvalidCommandReason::UnknownCommand));
            },
        };
        let mut tokens = match tokenize(line) {
            Ok((_, tokens)) => tokens,
            Err(error) => {
                return Err(error);
            },
        };
        let ghost lexemes = lexemes_of(tokens@);
        let ghost commands = commands_of(lexemes);
        tokens.push(Token::End);
        let ghost all = lexemes_of(tokens@);
        assert(all =~= lexemes.push(Lexeme::End));

        let mut cmd_tokens: Vec<Token> = Vec::new();
        let mut outputs: Vec<O> = Vec::new();
        let ghost given = tokens@;
        for token in it: tokens
            invariant
                it.seq() == given,
                all == lexemes_of(given),
                commands == closed_commands(all),
                self.line_of(command@) == Some(line@),
                tokens_from(line@, 0) matches Some((found, _)) && commands == commands_of(found),
                context matches Some(factory) ==> forall|base: &B| call_requires(factory, (base,)),
                lexemes_of(cmd_tokens@) == open_command(all.take(it.index())),
                closed_commands(all.take(it.index())) == commands.take(outputs@.len() as int),
                outputs@.len() <= commands.len(),
                forall|k: int|
                    0 <= k < outputs@.len() ==> self.runs(context, #[trigger] commands[k], Ok(outputs@[k])),
        {
            proof {
                let i = it.index();
                assert(all.take(i + 1).drop_last() =~= all.take(i));
                lemma_closed_commands_grow(all, i + 1);
            }
            match token {
                Token::End => {
                    if !cmd_tokens.is_empty() {
                        proof {
                            use_type_invariant(self);
                        }
                        let made = match &context {
                            Some(factory) => factory(&self.base_context),
                            None => (self.context_factory)(&self.base_context),
                        };
                        proof {
                            let closed = closed_commands(all.take(it.index() + 1));
                            assert(closed[outputs@.len() as int] == lexemes_of(cmd_tokens@));
                        }
                        match self.execute_command(cmd_tokens, made) {
                            Ok(res) => {
                                outputs.push(res);
                            },
                            Err(err) => {
                                proof {
                                    self.lemma_line_fails(context, commands, outputs@, err);
                                }
                                return Err(err);
                            },
                        }
                        cmd_tokens = Vec::new();
                    }
                },
                other => {
                    cmd_tokens.push(other);
                },
            }
        }
        assert(all.take(given.len() as int) =~= all);
        Ok(outputs)
    }

    /// A line fails with the error of a command whose predecessors gave
    /// outputs.
    proof fn lemma_line_fails<G: Fn(&B) -> C>(
        &self,
        given: Option<G>,
        commands: Seq<Seq<Lexeme>>,
        outputs: Seq<O>,
        error: Error,
    )
        requires
            outputs.len() < commands.len(),
            forall|k: int|
                0 <= k < outputs.len() ==> self.runs(given, #[trigger] commands[k], Ok(outputs[k])),
            self.runs(given, commands[outputs.len() as int], Err(error)),
        ensures
            self.line_result(given, commands, Err::<Vec<O>, Error>(error)),
    {
        assert(self.fails_at(given, commands, outputs.len() as int, error));
    }

    /// Runs one command: binds its arguments along the path that the tree
    /// gives it, and calls the handler at the end of the path.
    fn execute_command(&self, tokens: Vec<Token>, context: C) -> (result: Result<O>)
        ensures
            self.command_result(lexemes_of(tokens@), context, result),
    {
        let (named_arguments, tokens) = partition(tokens);
        let tokens = unwrap_tokens(tokens);
        let named_args = map_named_arguments(named_arguments);
        let mut bound: Vec<(String, String)> = Vec::new();

        match self.root.execute(0, tokens.as_slice(), &named_args, &mut bound) {
            ExecState::Found(handler) => {
                let mut state = ExecContext::new(context);
                let ghost all = bound@;
                for binding in it: bound
                    invariant
                        it.seq() == all,
                        state.arguments() == bound_by(all.take(it.index())),
                        state.inner() == context,
                {
                    proof {
                        assert(all.take(it.index() + 1).drop_last() =~= all.take(it.index()));
                    }
                    state.insert_argument(binding.0, binding.1);
                }
                assert(all.take(all.len() as int) =~= all);
                handler(&state)
            },
            _ => Err(Error::InvalidCommand(InvalidCommandReason::UnknownCommand)),
        }
    }
}

} // verus!
