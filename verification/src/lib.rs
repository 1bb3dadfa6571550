//! A runtime for a small reactive declarative language.
//!
//! Every top-level name is either a `Var`, a cell that is assigned from
//! outside, or a `Def`, a value computed from an expression over other names.
//! Each name is owned by a worker; this crate holds the state machines of the
//! workers and of their manager, the dependency analysis that admits a
//! declaration, the evaluator that a worker runs to recompute its value, and
//! the type inference that a declaration has to pass.
//!
//! The workers and the manager are state machines: each takes a message and
//! returns the messages to send. Running them as tasks and carrying the
//! messages between them is left to the program that uses the crate.
pub mod backend;
pub mod frontend;
pub mod names;

