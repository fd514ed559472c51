//! A watcher for newly finished files, with a bounded, shared history of the
//! most recent ones and the decisions that keep it consistent.

pub mod text;
pub mod history;
pub mod dedup;
pub mod number;
pub mod codec;
pub mod config;
pub mod watcher;
pub mod util;
pub mod status;
