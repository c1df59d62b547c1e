pub mod definition;
pub mod validator;
pub mod watcher;
