//! The paddock desktop app's logic: where the `paddock` binary is, what its
//! JSON and its exit codes mean, what is handed to it when it runs, and what
//! the user is told about the run.
pub mod contract;
pub mod exit;
pub mod paths;
pub mod proc;
pub mod report;
pub mod resolve;
pub mod text;

pub use contract::{Info, Policy, Port, Sandbox};
pub use exit::Exit;
pub use resolve::{Resolved, Source};
