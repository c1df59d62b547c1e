//! Runs a script with `python3 -c`.
use vstd::prelude::*;
use crate::json::JsonValue;
use crate::operators::bash::{command_outcome, command_result};
use crate::operators::process::ProcessOutput;
use crate::operators::registry::{ConfigField, OperatorError, OperatorKind};

verus! {

/// The operator that runs a Python script.
pub struct PythonOperator;

impl PythonOperator {
    /// The script to run: the `script` string of the configuration, else
    /// its `command` string.
    pub fn script(config: &JsonValue) -> (r: Result<String, OperatorError>)
        ensures
            match config.spec_get_str("script"@) {
                Some(c) => r matches Ok(s) && s@ == c,
                None => match config.spec_get_str("command"@) {
                    Some(c) => r matches Ok(s) && s@ == c,
                    None => r == Err::<String, OperatorError>(
                        OperatorError::MissingField { operator: OperatorKind::Python, field: ConfigField::ScriptOrCommand },
                    ),
                },
            },
    {
        match config.get_str("script") {
            Some(c) => Ok(c.clone()),
            None => match config.get_str("command") {
                Some(c) => Ok(c.clone()),
                None => Err(OperatorError::MissingField { operator: OperatorKind::Python, field: ConfigField::ScriptOrCommand }),
            },
        }
    }

    /// Judges the output of the script run.
    pub fn finish(output: ProcessOutput) -> (r: Result<String, OperatorError>)
        ensures
            command_result(OperatorKind::Python, output, r),
    {
        command_outcome(OperatorKind::Python, output)
    }

    /// The operator's name.
    pub fn name(&self) -> (r: &'static str)
        ensures
            r@ == OperatorKind::Python.spec_name(),
    {
        OperatorKind::Python.name()
    }
}

} // verus!
