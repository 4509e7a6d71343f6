pub mod arguments;
pub mod channel;
pub mod command;
pub mod discovery;
pub mod dispatch;
pub mod error;
pub mod filter;
pub mod flags;
pub mod git;
pub mod io;
pub mod order;
pub mod paint;
pub mod path;
pub mod pattern;
pub mod repoiterator;
pub mod report;
pub mod result;
pub mod sort;
pub mod status;
pub mod text;
pub mod walk;
