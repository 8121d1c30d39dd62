//! # yogurt
//!
//! A command library: a line of text is cut into tokens, the tokens are
//! matched against a tree of literal and argument nodes, and the handler of
//! the node that the line leads to is run with the arguments it bound.
//!
//! ```text
//! let dispatcher = Dispatcher::builder()
//!     .prefix("/")
//!     .base_context(())
//!     .context_factory(|_| ())
//!     .child(Command::literal("ping").child(
//!         Command::argument("number", IntArgument, true).exec(|ctx| {
//!             println!("{:?}", ctx);
//!             Ok(())
//!         }),
//!     ))
//!     .build()?;
//! dispatcher.run_command("/ping 3")?;
//! ```
pub mod argument;
pub mod dispatcher;
pub mod error;
pub mod parsers;

pub use dispatcher::{Command, CommandBuilder, Dispatcher, DispatcherBuilder, ExecContext, NodeType};
pub use error::{Error, InvalidCommandReason, Result};
