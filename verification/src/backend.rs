//! The propagation engine: dependency analysis, the evaluator, the workers
//! and their manager.
pub mod dependency;
pub mod evaluator;
pub mod graph;
pub mod message;
pub mod repl;
pub mod semantics;
pub mod srvmanager_proc;
pub mod worker;
