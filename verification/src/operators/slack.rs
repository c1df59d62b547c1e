//! Posts a message to a Slack webhook.
use vstd::prelude::*;
use vstd::string::*;
use crate::json::JsonValue;
use crate::operators::http::is_success_status;
use crate::operators::registry::{ConfigField, OperatorError, OperatorKind};

verus! {

/// A message to post to a webhook.
#[derive(Debug, Clone)]
pub struct SlackMessage {
    pub webhook_url: String,
    /// The text of the message; the payload posted is `{"text": text}`.
    pub text: String,
}

/// The operator that posts Slack messages.
pub struct SlackOperator;

impl SlackOperator {
    /// The message a configuration describes: the `webhook_url` string is
    /// required; the `message` string defaults to "Task completed".
    pub fn message(config: &JsonValue) -> (r: Result<SlackMessage, OperatorError>)
        ensures
            match config.spec_get_str("webhook_url"@) {
                None => r == Err::<SlackMessage, OperatorError>(
                    OperatorError::MissingField {
                        operator: OperatorKind::Slack,
                        field: ConfigField::WebhookUrl,
                    },
                ),
                Some(url) => r matches Ok(m) && m.webhook_url@ == url && m.text@ == (match config.spec_get_str(
                    "message"@,
                ) {
                    Some(t) => t,
                    None => "Task completed"@,
                }),
            },
    {
        let webhook_url = match config.get_str("webhook_url") {
            Some(u) => u.clone(),
            None => {
                return Err(
                    OperatorError::MissingField {
                        operator: OperatorKind::Slack,
                        field: ConfigField::WebhookUrl,
                    },
                );
            },
        };
        let text = match config.get_str("message") {
            Some(t) => t.clone(),
            None => String::from_str("Task completed"),
        };
        Ok(SlackMessage { webhook_url, text })
    }

    /// The payload posted: an object whose `text` member is the message.
    pub fn payload(message: &SlackMessage) -> (r: JsonValue)
        ensures
            r is Object,
            r->Object_0@.len() == 1,
            r->Object_0@[0].0@ == "text"@,
            r->Object_0@[0].1 matches JsonValue::Str(t) && t@ == message.text@,
    {
        let mut entries: Vec<(String, JsonValue)> = Vec::new();
        entries.push((String::from_str("text"), JsonValue::Str(message.text.clone())));
        JsonValue::Object(entries)
    }

    /// Judges the webhook's answer: a 2xx status reports the message sent.
    pub fn finish(status: u16) -> (r: Result<String, OperatorError>)
        ensures
            is_success_status(status) ==> (r matches Ok(s) && s@ == "Slack message sent"@),
            !is_success_status(status) ==> r == Err::<String, OperatorError>(
                OperatorError::SlackStatus(status),
            ),
    {
        if 200 <= status && status <= 299 {
            Ok(String::from_str("Slack message sent"))
        } else {
            Err(OperatorError::SlackStatus(status))
        }
    }

    /// The operator's name.
    pub fn name(&self) -> (r: &'static str)
        ensures
            r@ == OperatorKind::Slack.spec_name(),
    {
        OperatorKind::Slack.name()
    }
}

} // verus!
