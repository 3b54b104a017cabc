//! A job is a set of personas ("buddies") and an ordered list of tasks, each
//! assigned to one buddy and carrying a prompt template. Executing a job
//! resolves each task's prompt from the caller's inputs and the outputs of the
//! tasks before it, hands the prompt to a text-completion service, and threads
//! the answer forward. The last task's output is the job's result.
//!
//! This crate holds the engine: manifest validation, placeholder substitution,
//! the memory of task outputs and the sequential execution protocol. Talking to
//! the completion service is left to the caller, who drives an execution step
//! by step.

pub mod document;
pub mod execution;
pub mod job;
pub mod manifest;
pub mod memory;
pub mod search;
pub mod substitution;
pub mod text;
pub mod yaml;
