//! The task operators: what each reads from its configuration, and how it
//! judges the result of the work it hands out.
pub mod bash;
pub mod http;
pub mod process;
pub mod python;
pub mod registry;
pub mod slack;
pub mod sql;
