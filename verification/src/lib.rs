//! Decision logic for a family of small git helpers: status classification,
//! commit and amend construction, clean selection, credential resolution and
//! fetch coordination. Everything here works on plain values; the caller reads
//! the repository and performs the actions this crate decides on.
//!
//! Where an operation alternates between the repository and decisions, it is
//! a run: a value that says what the caller is to do next and is told how it
//! went. `commit::CommitRun`, `clean::Clean`, `credentials::Resolver`,
//! `fetch::Fetch` and `fetch::FetchAll` are such runs. What a run asks for
//! in each state, and the state that follows on each answer, is stated as a
//! function on the run's view, and the laws of each module are proved of
//! those functions.

pub mod clean;
pub mod cli;
pub mod command;
pub mod commit;
pub mod credentials;
pub mod fetch;
pub mod message;
pub mod stage;
pub mod status;
pub mod text;
