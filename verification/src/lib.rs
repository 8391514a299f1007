//! Sharing benchmark results as a GitHub pull request: everything that is decided
//! or computed on the way, with the contracts that pin it down.
//!
//! The library performs no input or output of its own. It says which request to
//! send next, reads the reply it is handed, and says what follows from it; see
//! [`share`] and [`submit`] for the flows, and [`github`] and [`auth`] for the requests
//! they are made of.

pub mod auth;
pub mod clock;
pub mod encoding;
pub mod github;
pub mod hardware;
pub mod json;
pub mod share;
pub mod submission;
pub mod submit;
pub mod text;
