pub mod api;
pub mod cli;
pub mod dag;
pub mod executor;
pub mod json;
pub mod operators;
pub mod scheduler;
pub mod store;
pub mod text;
pub mod timestamp;
pub mod ui;
