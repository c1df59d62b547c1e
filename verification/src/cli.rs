//! The orchestrator's commands, and the database each one opens.
use vstd::prelude::*;
use crate::store::{database_url, spec_start_database_url, start_database_url};

verus! {

/// A parsed command line.
#[derive(Debug, Clone)]
pub struct Cli {
    pub command: Commands,
}

/// The orchestrator's commands.
#[derive(Debug, Clone)]
pub enum Commands {
    /// Start the scheduler and executor; with `with_api`, also the API
    /// server on `port` and the watcher of `dags_dir`.
    Start { dags_dir: String, db_path: String, with_api: bool, port: u16 },
    /// Trigger a run of a DAG by hand.
    Trigger { dag_id: String, db_path: String },
    /// Show the latest `limit` runs of a DAG.
    Status { dag_id: String, limit: i64, db_path: String },
    /// Stop scheduled runs of a DAG.
    Pause { dag_id: String, db_path: String },
    /// Allow scheduled runs of a DAG again.
    Unpause { dag_id: String, db_path: String },
    /// List the stored DAGs.
    List { db_path: String },
    /// Serve the API on `port`.
    Serve { port: u16, db_path: String },
}

impl Commands {
    /// The database path the command names.
    pub open spec fn spec_db_path(self) -> Seq<char> {
        match self {
            Commands::Start { db_path, .. } => db_path@,
            Commands::Trigger { db_path, .. } => db_path@,
            Commands::Status { db_path, .. } => db_path@,
            Commands::Pause { db_path, .. } => db_path@,
            Commands::Unpause { db_path, .. } => db_path@,
            Commands::List { db_path } => db_path@,
            Commands::Serve { db_path, .. } => db_path@,
        }
    }

    /// The database URL the command opens: `start` takes a path with a
    /// scheme as a URL; every other command opens the path as a SQLite file.
    pub open spec fn spec_database_url(self) -> Seq<char> {
        match self {
            Commands::Start { db_path, .. } => spec_start_database_url(db_path@),
            _ => "sqlite://"@ + self.spec_db_path(),
        }
    }

    /// The database URL the command opens.
    pub fn database_url(&self) -> (r: String)
        ensures
            r@ == self.spec_database_url(),
    {
        match self {
            Commands::Start { db_path, .. } => start_database_url(db_path.as_str()),
            Commands::Trigger { db_path, .. } => database_url(db_path.as_str()),
            Commands::Status { db_path, .. } => database_url(db_path.as_str()),
            Commands::Pause { db_path, .. } => database_url(db_path.as_str()),
            Commands::Unpause { db_path, .. } => database_url(db_path.as_str()),
            Commands::List { db_path } => database_url(db_path.as_str()),
            Commands::Serve { db_path, .. } => database_url(db_path.as_str()),
        }
    }
}

} // verus!
