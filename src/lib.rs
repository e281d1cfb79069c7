//! A command-line task tracker: its records, the rules that change them, the
//! parser for its command words and the text it prints.
pub mod command;
pub mod executor;
pub mod record;
pub mod task;
pub mod timestamp;
