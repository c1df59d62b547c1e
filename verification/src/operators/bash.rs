//! Runs a shell command with `bash -c`.
use vstd::prelude::*;
use crate::json::JsonValue;
use crate::operators::process::{decode_lossy, utf8_lossy, ProcessOutput};
use crate::operators::registry::{ConfigField, OperatorError, OperatorKind};

verus! {

/// What a command run reports: its standard output when it succeeded, the
/// failure with exit code and standard error otherwise.
pub open spec fn command_result(
    operator: OperatorKind,
    output: ProcessOutput,
    r: Result<String, OperatorError>,
) -> bool {
    if output.success {
        r matches Ok(s) && s@ == utf8_lossy(output.stdout@)
    } else {
        r matches Err(OperatorError::CommandFailed { operator: op, exit_code, stderr }) && op == operator
            && exit_code == output.exit_code && stderr@ == utf8_lossy(output.stderr@)
    }
}

/// Judges the output of a command run by an operator.
pub fn command_outcome(operator: OperatorKind, output: ProcessOutput) -> (r: Result<String, OperatorError>)
    ensures
        command_result(operator, output, r),
{
    let stdout = decode_lossy(output.stdout.as_slice());
    let stderr = decode_lossy(output.stderr.as_slice());
    if !output.success {
        return Err(OperatorError::CommandFailed { operator, exit_code: output.exit_code, stderr });
    }
    Ok(stdout)
}

/// The operator that runs a shell command.
pub struct BashOperator;

impl BashOperator {
    /// The command to run: the `command` string of the configuration.
    pub fn command(config: &JsonValue) -> (r: Result<String, OperatorError>)
        ensures
            match config.spec_get_str("command"@) {
                Some(c) => r matches Ok(s) && s@ == c,
                None => r == Err::<String, OperatorError>(
                    OperatorError::MissingField { operator: OperatorKind::Bash, field: ConfigField::Command },
                ),
            },
    {
        match config.get_str("command") {
            Some(c) => Ok(c.clone()),
            None => Err(OperatorError::MissingField { operator: OperatorKind::Bash, field: ConfigField::Command }),
        }
    }

    /// Judges the output of the command run.
    pub fn finish(output: ProcessOutput) -> (r: Result<String, OperatorError>)
        ensures
            command_result(OperatorKind::Bash, output, r),
    {
        command_outcome(OperatorKind::Bash, output)
    }

    /// The operator's name.
    pub fn name(&self) -> (r: &'static str)
        ensures
            r@ == OperatorKind::Bash.spec_name(),
    {
        OperatorKind::Bash.name()
    }
}

/// A command that exited successfully gives its standard output, whatever
/// it wrote to standard error; only an unsuccessful exit is a failure, and
/// it reports the operator, the exit code and the standard error.
pub proof fn lemma_exit_status_decides(operator: OperatorKind, output: ProcessOutput, r: Result<String, OperatorError>)
    requires
        command_result(operator, output, r),
    ensures
        output.success ==> r is Ok && r->Ok_0@ == utf8_lossy(output.stdout@),
        !output.success ==> (r matches Err(OperatorError::CommandFailed { operator: op, exit_code, stderr })
            && op == operator && exit_code == output.exit_code && stderr@ == utf8_lossy(output.stderr@)),
        r is Ok <==> output.success,
{
}

} // verus!
