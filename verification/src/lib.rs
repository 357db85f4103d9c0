//! Study notes turned into a verified library: ownership, structs,
//! enums, generics, lifetimes and error handling, each with its
//! contract, together with the crate's one real component: a tolerant
//! decoder for a semi-structured job-status record (the `flink`
//! module), whose behaviour is specified and proved end to end.

pub mod config;
pub mod encoding;
pub mod enums;
pub mod error_handling;
pub mod flink;
pub mod generics;
pub mod lifetimes;
pub mod numeral;
pub mod ownership;
pub mod prompt_generation;
pub mod restaurant;
pub mod shapes;
pub mod structs;
pub mod summary;
