//! Laws that relate the operations of the crate to each other.

pub mod chain;
pub mod config;
pub mod disk;
pub mod numbers;
pub mod progress;
pub mod registers;
pub mod requests;
pub mod steps;
