//! The SQL operator: checks its configuration and reports a fixed result.
use vstd::prelude::*;
use vstd::string::*;
use crate::json::JsonValue;
use crate::operators::registry::{ConfigField, OperatorError, OperatorKind};

verus! {

/// The operator for SQL queries.
pub struct SqlOperator;

impl SqlOperator {
    /// Requires the `query` and `connection_string` strings, in that order,
    /// and reports "SQL execution result"; no query is run.
    pub fn execute(config: &JsonValue) -> (r: Result<String, OperatorError>)
        ensures
            if config.spec_get_str("query"@) is None {
                r == Err::<String, OperatorError>(
                    OperatorError::MissingField { operator: OperatorKind::Sql, field: ConfigField::Query },
                )
            } else if config.spec_get_str("connection_string"@) is None {
                r == Err::<String, OperatorError>(
                    OperatorError::MissingField {
                        operator: OperatorKind::Sql,
                        field: ConfigField::ConnectionString,
                    },
                )
            } else {
                r matches Ok(s) && s@ == "SQL execution result"@
            },
    {
        if config.get_str("query").is_none() {
            return Err(OperatorError::MissingField { operator: OperatorKind::Sql, field: ConfigField::Query });
        }
        if config.get_str("connection_string").is_none() {
            return Err(
                OperatorError::MissingField {
                    operator: OperatorKind::Sql,
                    field: ConfigField::ConnectionString,
                },
            );
        }
        Ok(String::from_str("SQL execution result"))
    }

    /// The operator's name.
    pub fn name(&self) -> (r: &'static str)
        ensures
            r@ == OperatorKind::Sql.spec_name(),
    {
        OperatorKind::Sql.name()
    }
}

} // verus!
