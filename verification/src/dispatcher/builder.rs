//! Builders: a command tree and a dispatcher are put together step by
//! step, and then built once.
use vstd::prelude::*;
use crate::argument::parser::ArgumentParser;
use crate::argument::{Argument, Validator};
use crate::dispatcher::{literals_lead, Command, Dispatcher, ExecContext, NodeType};
use crate::error::{Error, Result};
use std::fmt::Debug;
use std::marker::PhantomData;

verus! {

#[allow(clippy::type_complexity)]
#[verifier::reject_recursive_types(C)]
#[verifier::reject_recursive_types(O)]
pub struct CommandBuilder<C: Debug, O, H: Fn(&ExecContext<C>) -> Result<O>> {
    children: Vec<Command<C, O, H>>,
    node: NodeType,
    handler: Option<H>,
    marker: PhantomData<(C, O)>,
}

/// The children of a built node: the literal ones of `children` in their
/// order, then the others in theirs.
pub open spec fn literals_first<C: Debug, O, H: Fn(&ExecContext<C>) -> Result<O>>(
    children: Seq<Command<C, O, H>>,
) -> Seq<Command<C, O, H>> {
    children.filter(|child: Command<C, O, H>| child.node() is Literal) + children.filter(
        |child: Command<C, O, H>| !(child.node() is Literal),
    )
}

/// The children of a built node are in order: the literal ones lead.
pub proof fn lemma_built_children_ordered<C: Debug, O, H: Fn(&ExecContext<C>) -> Result<O>>(
    children: Seq<Command<C, O, H>>,
)
    ensures
        literals_lead(literals_first(children)),
{
    let is_literal = |child: Command<C, O, H>| child.node() is Literal;
    let is_other = |child: Command<C, O, H>| !(child.node() is Literal);
    let front = children.filter(is_literal);
    let back = children.filter(is_other);
    assert forall|i: int, j: int|
        0 <= i < j < (front + back).len() && (#[trigger] (front + back)[j]).node() is Literal implies (
    #[trigger] (front + back)[i]).node() is Literal by {
        if j >= front.len() {
            children.lemma_filter_pred(is_other, j - front.len());
        }
        if i < front.len() {
            children.lemma_filter_pred(is_literal, i);
        }
    }
}

impl<C: Debug, O, H: Fn(&ExecContext<C>) -> Result<O>> CommandBuilder<C, O, H> {
    pub closed spec fn children(&self) -> Seq<Command<C, O, H>> {
        self.children@
    }

    pub closed spec fn node(&self) -> NodeType {
        self.node
    }

    pub closed spec fn handler(&self) -> Option<H> {
        self.handler
    }

    /// The handler of the node can be called, whatever the context.
    #[verifier::type_invariant]
    spec fn handler_callable(self) -> bool {
        self.handler matches Some(handler) ==> forall|context: &ExecContext<C>|
            call_requires(handler, (context,))
    }

    /// Whether `command` is the node that `build` makes of this builder:
    /// the same node and handler, and the children in order.
    pub open spec fn builds(&self, command: Command<C, O, H>) -> bool {
        &&& command.children() == literals_first(self.children())
        &&& command.node() == self.node()
        &&& command.handler() == self.handler()
    }

    /// Starts a node that takes the token `name` and no other.
    pub fn literal(name: &str) -> (builder: Self)
        ensures
            builder.children() == Seq::<Command<C, O, H>>::empty(),
            builder.node() matches NodeType::Literal(text) && text@ == name@,
            builder.handler() is None,
    {
        Self {
            children: Vec::new(),
            node: NodeType::Literal(name.to_owned()),
            handler: None,
            marker: PhantomData,
        }
    }

    /// Starts a node that binds a token `parser` converts to `name`.
    pub fn argument<P: ArgumentParser>(parser: P, name: &str, required: bool) -> (builder: Self)
        ensures
            builder.children() == Seq::<Command<C, O, H>>::empty(),
            builder.handler() is None,
            builder.node() matches NodeType::Argument(argument) && argument.name@ == name@
                && argument.required == required && forall|token: Seq<char>|
                argument.accepts(token) == parser.accepts(token),
    {
        Self::argument_validator(parser.validator(), name, required)
    }

    /// Starts a node that binds a token `validator` passes to `name`.
    pub fn argument_validator(validator: Validator, name: &str, required: bool) -> (builder: Self)
        ensures
            builder.children() == Seq::<Command<C, O, H>>::empty(),
            builder.handler() is None,
            builder.node() matches NodeType::Argument(argument) && argument.name@ == name@
                && argument.required == required && argument.validator == validator,
    {
        Self {
            children: Vec::new(),
            handler: None,
            node: NodeType::Argument(Argument::new(validator, name.to_owned(), required)),
            marker: PhantomData,
        }
    }

    /// Sets the handler that runs where a command ends at this node.
    pub fn exec(self, exec: H) -> (builder: Self)
        requires
            forall|context: &ExecContext<C>| call_requires(exec, (context,)),
        ensures
            builder.children() == self.children(),
            builder.node() == self.node(),
            builder.handler() == Some(exec),
    {
        Self { children: self.children, node: self.node, handler: Some(exec), marker: PhantomData }
    }

    /// Puts a subtree below this node, behind those put there before.
    pub fn child(self, child: CommandBuilder<C, O, H>) -> (builder: Self)
        ensures
            builder.node() == self.node(),
            builder.handler() == self.handler(),
            builder.children().len() == self.children().len() + 1,
            builder.children().drop_last() == self.children(),
            child.builds(builder.children().last()),
    {
        proof {
            use_type_invariant(&self);
        }
        let mut children = self.children;
        children.push(child.build());
        Self { children, node: self.node, handler: self.handler, marker: PhantomData }
    }

    /// Builds the node: its children are put in order, the literal ones
    /// before the others, each kind in the order in which it was added.
    pub fn build(self) -> (command: Command<C, O, H>)
        ensures
            self.builds(command),
    {
        proof {
            use_type_invariant(&self);
        }
        let mut literals: Vec<Command<C, O, H>> = Vec::new();
        let mut arguments: Vec<Command<C, O, H>> = Vec::new();
        let ghost all = self.children@;
        let ghost is_literal = |child: Command<C, O, H>| child.node() is Literal;
        let ghost is_other = |child: Command<C, O, H>| !(child.node() is Literal);
        proof {
            reveal(Seq::filter);
        }
        for child in it: self.children
            invariant
                it.seq() == all,
                is_literal == |child: Command<C, O, H>| child.node() is Literal,
                is_other == |child: Command<C, O, H>| !(child.node() is Literal),
                literals@ == all.take(it.index()).filter(is_literal),
                arguments@ == all.take(it.index()).filter(is_other),
        {
            proof {
                reveal(Seq::filter);
                assert(all.take(it.index() + 1).drop_last() =~= all.take(it.index()));
            }
            if child.is_literal() {
                literals.push(child);
            } else {
                arguments.push(child);
            }
        }
        assert(all.take(all.len() as int) =~= all);
        literals.append(&mut arguments);
        proof {
            lemma_built_children_ordered(all);
        }
        Command { children: literals, node: self.node, handler: self.handler, marker: PhantomData }
    }
}

#[verifier::reject_recursive_types(C)]
#[verifier::reject_recursive_types(O)]
pub struct DispatcherBuilder<C: Debug, O, B, H: Fn(&ExecContext<C>) -> Result<O>, F: Fn(&B) -> C> {
    root: CommandBuilder<C, O, H>,
    prefix: Option<String>,
    context_factory: Option<F>,
    base_context: Option<B>,
}

impl<C: Debug, O, B, H: Fn(&ExecContext<C>) -> Result<O>, F: Fn(&B) -> C> DispatcherBuilder<
    C,
    O,
    B,
    H,
    F,
> {
    /// The context factory, where one is set, can be called, whatever the
    /// base context.
    #[verifier::type_invariant]
    spec fn factory_callable(self) -> bool {
        self.context_factory matches Some(factory) ==> forall|base: &B|
            call_requires(factory, (base,))
    }

    /// The builder of the root of the tree.
    pub closed spec fn root(&self) -> CommandBuilder<C, O, H> {
        self.root
    }

    /// The prefix, where one was set.
    pub closed spec fn set_prefix(&self) -> Option<Seq<char>> {
        match self.prefix {
            Some(prefix) => Some(prefix@),
            None => None,
        }
    }

    pub closed spec fn factory(&self) -> Option<F> {
        self.context_factory
    }

    pub closed spec fn base(&self) -> Option<B> {
        self.base_context
    }

    /// A builder with nothing set: no prefix, no factory, no base context,
    /// and a root without children.
    pub fn new() -> (builder: Self)
        ensures
            builder.root().children() == Seq::<Command<C, O, H>>::empty(),
            builder.root().handler() is None,
            builder.root().node() matches NodeType::Literal(text) && text@ == Seq::<char>::empty(),
            builder.set_prefix() is None,
            builder.factory() is None,
            builder.base() is None,
    {
        let root = CommandBuilder::literal("");
        proof {
            reveal_strlit("");
        }
        Self { root, prefix: None, context_factory: None, base_context: None }
    }

    /// Sets the text that a line must begin with.
    pub fn prefix(self, prefix: &str) -> (builder: Self)
        ensures
            builder.set_prefix() == Some(prefix@),
            builder.root() == self.root(),
            builder.factory() == self.factory(),
            builder.base() == self.base(),
    {
        proof {
            use_type_invariant(&self);
        }
        Self {
            root: self.root,
            prefix: Some(prefix.to_owned()),
            context_factory: self.context_factory,
            base_context: self.base_context,
        }
    }

    /// Sets the factory that makes the context of each command.
    pub fn context_factory(self, factory: F) -> (builder: Self)
        requires
            forall|base: &B| call_requires(factory, (base,)),
        ensures
            builder.factory() == Some(factory),
            builder.root() == self.root(),
            builder.set_prefix() == self.set_prefix(),
            builder.base() == self.base(),
    {
        Self {
            root: self.root,
            prefix: self.prefix,
            context_factory: Some(factory),
            base_context: self.base_context,
        }
    }

    /// Sets the value that the factory makes contexts from.
    pub fn base_context(self, context: B) -> (builder: Self)
        ensures
            builder.base() == Some(context),
            builder.root() == self.root(),
            builder.set_prefix() == self.set_prefix(),
            builder.factory() == self.factory(),
    {
        proof {
            use_type_invariant(&self);
        }
        Self {
            root: self.root,
            prefix: self.prefix,
            context_factory: self.context_factory,
            base_context: Some(context),
        }
    }

    /// Puts a command below the root, behind those put there before.
    pub fn child(self, child: CommandBuilder<C, O, H>) -> (builder: Self)
        ensures
            builder.root().node() == self.root().node(),
            builder.root().handler() == self.root().handler(),
            builder.root().children().len() == self.root().children().len() + 1,
            builder.root().children().drop_last() == self.root().children(),
            child.builds(builder.root().children().last()),
            builder.set_prefix() == self.set_prefix(),
            builder.factory() == self.factory(),
            builder.base() == self.base(),
    {
        proof {
            use_type_invariant(&self);
        }
        Self {
            root: self.root.child(child),
            prefix: self.prefix,
            context_factory: self.context_factory,
            base_context: self.base_context,
        }
    }

    /// Builds the dispatcher. Fails with `IncompleteBuilder` where no
    /// context factory or no base context was set; the prefix is empty
    /// where none was set.
    pub fn build(self) -> (r: Result<Dispatcher<C, O, B, H, F>>)
        ensures
            match r {
                Ok(dispatcher) => {
                    &&& self.factory() == Some(dispatcher.factory())
                    &&& self.base() == Some(dispatcher.base())
                    &&& dispatcher.prefix() == match self.set_prefix() {
                        Some(prefix) => prefix,
                        None => Seq::<char>::empty(),
                    }
                    &&& self.root().builds(dispatcher.root())
                },
                Err(error) => error == Error::IncompleteBuilder && (self.factory() is None
                    || self.base() is None),
            },
    {
        proof {
            use_type_invariant(&self);
        }
        let context_factory = match self.context_factory {
            Some(factory) => factory,
            None => {
                return Err(Error::IncompleteBuilder);
            },
        };
        let base_context = match self.base_context {
            Some(context) => context,
            None => {
                return Err(Error::IncompleteBuilder);
            },
        };
        let prefix = match self.prefix {
            Some(prefix) => prefix,
            None => String::new(),
        };
        Ok(Dispatcher { root: self.root.build(), prefix, context_factory, base_context })
    }
}

impl<C: Debug, O, B, H: Fn(&ExecContext<C>) -> Result<O>, F: Fn(&B) -> C> Default for DispatcherBuilder<
    C,
    O,
    B,
    H,
    F,
> {
    fn default() -> (builder: Self)
        ensures
            builder.root().children() == Seq::<Command<C, O, H>>::empty(),
            builder.root().handler() is None,
            builder.root().node() matches NodeType::Literal(text) && text@ == Seq::<char>::empty(),
            builder.set_prefix() is None,
            builder.factory() is None,
            builder.base() is None,
    {
        Self::new()
    }
}

} // verus!
