//! What a command does with the data: one module for each kind of record.

pub mod account;
