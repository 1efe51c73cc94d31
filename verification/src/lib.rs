//! Postwoman's request/response logic: the pieces of a small HTTP API tester
//! that decide what is sent, what is kept in the history, and what is shown.

pub mod seqs;
pub mod text;
pub mod format;
pub mod theme;
pub mod http;
pub mod order;
pub mod history;
pub mod rows;
pub mod persist;
pub mod session;
