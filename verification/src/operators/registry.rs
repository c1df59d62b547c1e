//! Operator kinds and their lookup by name.
use vstd::prelude::*;
use vstd::string::*;
use crate::text::{decimal, decimal_text, signed_decimal, signed_decimal_text, str_equals};

verus! {

/// Why an operator could not do its work.
#[derive(Debug, Clone, PartialEq)]
pub enum OperatorError {
    /// The configuration lacks a required string field.
    MissingField { operator: OperatorKind, field: ConfigField },
    /// The configured HTTP method is not one of GET, POST, PUT, DELETE.
    UnsupportedHttpMethod(String),
    /// An HTTP request was answered with a status outside 200..=299.
    HttpStatus(u16),
    /// A Slack webhook was answered with a status outside 200..=299.
    SlackStatus(u16),
    /// A command exited unsuccessfully.
    CommandFailed { operator: OperatorKind, exit_code: Option<i32>, stderr: String },
}

/// The configuration fields that operators require.
#[derive(Debug, Clone, Copy, PartialEq, Eq, Structural)]
pub enum ConfigField {
    /// `command` (bash).
    Command,
    /// `script`, or else `command` (python).
    ScriptOrCommand,
    /// `url` (http).
    Url,
    /// `webhook_url` (slack).
    WebhookUrl,
    /// `query` (sql).
    Query,
    /// `connection_string` (sql).
    ConnectionString,
}

/// The operators a task can name.
#[derive(Debug, Clone, Copy, PartialEq, Eq, Structural)]
pub enum OperatorKind {
    Bash,
    Python,
    Http,
    Sql,
    Slack,
}

impl OperatorKind {
    /// The name tasks use for the operator.
    pub open spec fn spec_name(self) -> Seq<char> {
        match self {
            OperatorKind::Bash => "bash"@,
            OperatorKind::Python => "python"@,
            OperatorKind::Http => "http"@,
            OperatorKind::Sql => "sql"@,
            OperatorKind::Slack => "slack"@,
        }
    }

    /// The name tasks use for the operator.
    pub fn name(&self) -> (r: &'static str)
        ensures
            r@ == self.spec_name(),
    {
        match self {
            OperatorKind::Bash => "bash",
            OperatorKind::Python => "python",
            OperatorKind::Http => "http",
            OperatorKind::Sql => "sql",
            OperatorKind::Slack => "slack",
        }
    }
}

/// The operator a task names, if any.
pub open spec fn spec_get_operator(name: Seq<char>) -> Option<OperatorKind> {
    if name == "bash"@ {
        Some(OperatorKind::Bash)
    } else if name == "python"@ {
        Some(OperatorKind::Python)
    } else if name == "http"@ {
        Some(OperatorKind::Http)
    } else if name == "sql"@ {
        Some(OperatorKind::Sql)
    } else if name == "slack"@ {
        Some(OperatorKind::Slack)
    } else {
        None
    }
}

/// Lookup of operators by name.
pub struct OperatorRegistry;

impl OperatorRegistry {
    /// The operator named `operator_type`; `None` for unknown names.
    pub fn get_operator(operator_type: &str) -> (r: Option<OperatorKind>)
        ensures
            r == spec_get_operator(operator_type@),
    {
        if str_equals(operator_type, "bash") {
            Some(OperatorKind::Bash)
        } else if str_equals(operator_type, "python") {
            Some(OperatorKind::Python)
        } else if str_equals(operator_type, "http") {
            Some(OperatorKind::Http)
        } else if str_equals(operator_type, "sql") {
            Some(OperatorKind::Sql)
        } else if str_equals(operator_type, "slack") {
            Some(OperatorKind::Slack)
        } else {
            None
        }
    }
}

/// Every operator is found under its own name.
pub proof fn lemma_operator_found_by_name(k: OperatorKind)
    ensures
        spec_get_operator(k.spec_name()) == Some(k),
{
    reveal_strlit("bash");
    reveal_strlit("python");
    reveal_strlit("http");
    reveal_strlit("sql");
    reveal_strlit("slack");
    assert("bash"@[0] == 'b' && "python"@[0] == 'p' && "http"@[0] == 'h' && "sql"@[0] == 's'
        && "slack"@[0] == 's');
    assert("sql"@[1] == 'q' && "slack"@[1] == 'l');
}

/// The reason phrase that `reqwest::StatusCode` (the `http` crate) knows
/// for a status code; none when the code is no status code or has no
/// registered phrase.
pub uninterp spec fn canonical_reason_text(code: u16) -> Option<Seq<char>>;

/// `StatusCode::from_u16(code)`, then `canonical_reason`.
#[verifier::external_body]
fn canonical_reason(code: u16) -> (r: Option<String>)
    ensures
        match r {
            Some(t) => canonical_reason_text(code) == Some(t@),
            None => canonical_reason_text(code) is None,
        },
{
    match reqwest::StatusCode::from_u16(code) {
        Ok(status) => match status.canonical_reason() {
            Some(t) => Some(t.to_string()),
            None => None,
        },
        Err(_) => None,
    }
}

/// How a status code is shown: the code and its reason phrase (or
/// `<unknown status code>`) for codes 100 to 999, the bare code otherwise.
pub open spec fn status_text(code: u16) -> Seq<char> {
    if 100 <= code && code <= 999 {
        decimal(code as nat) + " "@ + match canonical_reason_text(code) {
            Some(t) => t,
            None => "<unknown status code>"@,
        }
    } else {
        decimal(code as nat)
    }
}

/// How a status code is shown.
fn show_status(code: u16) -> (r: String)
    ensures
        r@ == status_text(code),
{
    let mut s = decimal_text(code as u32);
    if 100 <= code && code <= 999 {
        s.append(" ");
        match canonical_reason(code) {
            Some(t) => s.append(t.as_str()),
            None => s.append("<unknown status code>"),
        }
    }
    s
}

/// The message for a missing configuration field.
pub open spec fn field_message(field: ConfigField) -> Seq<char> {
    match field {
        ConfigField::Command => "Missing 'command' field in bash operator config"@,
        ConfigField::ScriptOrCommand => "Missing 'script' or 'command' field in python operator config"@,
        ConfigField::Url => "Missing 'url' field in HTTP operator config"@,
        ConfigField::WebhookUrl => "Missing 'webhook_url' field in Slack operator config"@,
        ConfigField::Query => "Missing 'query' field in SQL operator config"@,
        ConfigField::ConnectionString => "Missing 'connection_string' field in SQL operator config"@,
    }
}

/// An exit code as it is reported: `Some(<code>)`, or `None` for a
/// command ended by a signal.
pub open spec fn exit_code_text(code: Option<i32>) -> Seq<char> {
    match code {
        Some(n) => "Some("@ + signed_decimal(n as int) + ")"@,
        None => "None"@,
    }
}

/// The program a failed command ran, as named in its error.
pub open spec fn program_name(operator: OperatorKind) -> Seq<char> {
    if operator == OperatorKind::Python {
        "Python"@
    } else {
        "Bash"@
    }
}

impl OperatorError {
    /// The text of the error, as task logs record it.
    pub open spec fn spec_message(self) -> Seq<char> {
        match self {
            OperatorError::MissingField { field, .. } => field_message(field),
            OperatorError::UnsupportedHttpMethod(m) => "Unsupported HTTP method: "@ + m@,
            OperatorError::HttpStatus(code) => "HTTP request failed with status: "@ + status_text(code),
            OperatorError::SlackStatus(code) => "Slack webhook request failed with status: "@ + status_text(code),
            OperatorError::CommandFailed { operator, exit_code, stderr } => program_name(operator)
                + " command failed with exit code: "@ + exit_code_text(exit_code) + "\nStderr: "@ + stderr@,
        }
    }

    /// The text of the error.
    pub fn message(&self) -> (r: String)
        ensures
            r@ == self.spec_message(),
    {
        match self {
            OperatorError::MissingField { field, .. } => match field {
                ConfigField::Command => String::from_str("Missing 'command' field in bash operator config"),
                ConfigField::ScriptOrCommand => String::from_str(
                    "Missing 'script' or 'command' field in python operator config",
                ),
                ConfigField::Url => String::from_str("Missing 'url' field in HTTP operator config"),
                ConfigField::WebhookUrl => String::from_str("Missing 'webhook_url' field in Slack operator config"),
                ConfigField::Query => String::from_str("Missing 'query' field in SQL operator config"),
                ConfigField::ConnectionString => String::from_str(
                    "Missing 'connection_string' field in SQL operator config",
                ),
            },
            OperatorError::UnsupportedHttpMethod(m) => {
                let mut s = String::from_str("Unsupported HTTP method: ");
                s.append(m.as_str());
                s
            },
            OperatorError::HttpStatus(code) => {
                let mut s = String::from_str("HTTP request failed with status: ");
                let t = show_status(*code);
                s.append(t.as_str());
                s
            },
            OperatorError::SlackStatus(code) => {
                let mut s = String::from_str("Slack webhook request failed with status: ");
                let t = show_status(*code);
                s.append(t.as_str());
                s
            },
            OperatorError::CommandFailed { operator, exit_code, stderr } => {
                let mut s = match operator {
                    OperatorKind::Python => String::from_str("Python"),
                    _ => String::from_str("Bash"),
                };
                s.append(" command failed with exit code: ");
                match exit_code {
                    Some(n) => {
                        s.append("Some(");
                        let t = signed_decimal_text(*n);
                        s.append(t.as_str());
                        s.append(")");
                    },
                    None => s.append("None"),
                }
                s.append("\nStderr: ");
                s.append(stderr.as_str());
                s
            },
        }
    }
}

/// A name finds an operator exactly when it is that operator's name.
pub proof fn lemma_operator_name_inverse(name: Seq<char>, k: OperatorKind)
    ensures
        spec_get_operator(name) == Some(k) <==> name == k.spec_name(),
{
    lemma_operator_found_by_name(k);
    reveal_strlit("bash");
    reveal_strlit("python");
    reveal_strlit("http");
    reveal_strlit("sql");
    reveal_strlit("slack");
    assert("bash"@[0] == 'b' && "python"@[0] == 'p' && "http"@[0] == 'h' && "sql"@[0] == 's'
        && "slack"@[0] == 's');
    assert("sql"@[1] == 'q' && "slack"@[1] == 'l');
}

} // verus!
