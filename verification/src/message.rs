use vstd::prelude::*;
use vstd::string::StringExecFns;

use crate::errors::SbtClientError;

verus! {

// Each of the spec functions below names one thing the JSON reader extracts
// from an inbound payload.  Parsing is deterministic, so each is a fixed
// function of the payload text alone; no more is claimed of them, and the
// classifier below is verified for every value they may take.
/// The payload's top-level `id` field, when it is a non-negative integer.
pub uninterp spec fn json_id_of(s: Seq<char>) -> Option<u64>;

/// The payload's `result.status` field, when it is a string.
pub uninterp spec fn json_status_of(s: Seq<char>) -> Option<Seq<char>>;

/// The payload's `result.exitCode` field, when it is a non-negative integer.
pub uninterp spec fn json_exit_code_of(s: Seq<char>) -> Option<u64>;

/// The payload's top-level `method` field, when it is a string.
pub uninterp spec fn json_method_of(s: Seq<char>) -> Option<Seq<char>>;

/// The payload's `params.type` field, when it is a non-negative integer.
pub uninterp spec fn json_log_type_of(s: Seq<char>) -> Option<u64>;

/// The payload's `params.message` field, when it is a string.
pub uninterp spec fn json_log_message_of(s: Seq<char>) -> Option<Seq<char>>;

/// Whether the payload holds a `params.diagnostics` field.
pub uninterp spec fn json_has_diagnostics(s: Seq<char>) -> bool;

/// An optional owned string agrees with an optional character sequence.
pub open spec fn opt_string_matches(o: Option<String>, g: Option<Seq<char>>) -> bool {
    match o {
        Option::Some(s) => g == Option::Some(s@),
        Option::None => g is None,
    }
}

/// Relies on `serde_json::from_str::<serde_json::Value>` together with
/// `Value::get`, `Value::pointer`, `Value::as_u64` and `Value::as_str`: the
/// response-shape fields of a payload — the top-level `id` integer and the
/// `status` string and `exitCode` integer under `result` — are each present
/// exactly when the text parses as JSON and holds that field with that type.
#[verifier::external_body]
fn extract_response_fields(text: &str) -> (f: (Option<u64>, Option<String>, Option<u64>))
    ensures
        f.0 == json_id_of(text@),
        opt_string_matches(f.1, json_status_of(text@)),
        f.2 == json_exit_code_of(text@),
{
    match serde_json::from_str::<serde_json::Value>(text) {
        Ok(v) => (
            v.get("id").and_then(serde_json::Value::as_u64),
            v.pointer("/result/status").and_then(serde_json::Value::as_str).map(str::to_owned),
            v.pointer("/result/exitCode").and_then(serde_json::Value::as_u64),
        ),
        Err(_) => (None, None, None),
    }
}

/// Relies on `serde_json::from_str::<serde_json::Value>` together with
/// `Value::get`, `Value::pointer`, `Value::as_u64` and `Value::as_str`: the
/// notification-shape fields of a payload — the top-level `method` string,
/// the `type` integer and `message` string under `params`, and whether a
/// `params.diagnostics` field is present — each read exactly when the text
/// parses as JSON and holds that field with that type.
#[verifier::external_body]
fn extract_notification_fields(text: &str) -> (f: (
    Option<String>,
    Option<u64>,
    Option<String>,
    bool,
))
    ensures
        opt_string_matches(f.0, json_method_of(text@)),
        f.1 == json_log_type_of(text@),
        opt_string_matches(f.2, json_log_message_of(text@)),
        f.3 == json_has_diagnostics(text@),
{
    match serde_json::from_str::<serde_json::Value>(text) {
        Ok(v) => (
            v.get("method").and_then(serde_json::Value::as_str).map(str::to_owned),
            v.pointer("/params/type").and_then(serde_json::Value::as_u64),
            v.pointer("/params/message").and_then(serde_json::Value::as_str).map(str::to_owned),
            v.pointer("/params/diagnostics").is_some(),
        ),
        Err(_) => (None, None, None, false),
    }
}

/// The body of a terminal response: the outcome of the one outbound request.
pub struct CommandResult {
    pub status: String,
    pub exit_code: u64,
}

/// The body of a log notification: a severity level and its text.
pub struct LogMessageParams {
    pub type_: u64,
    pub message: String,
}

/// One inbound message, classified by the shape of its payload.
pub enum Message {
    LogMessage { method: String, params: LogMessageParams },
    Response { id: u64, result: CommandResult },
    PublishDiagnostics { method: String },
}

/// True when the payload matches the response shape: an `id` integer and a
/// `result` object carrying `status` and `exitCode`.
pub open spec fn response_shape(s: Seq<char>) -> bool {
    json_id_of(s) is Some && json_status_of(s) is Some && json_exit_code_of(s) is Some
}

/// True when the payload matches the log-notification shape: a `method`
/// string and `params` carrying `type` and `message`.
pub open spec fn log_shape(s: Seq<char>) -> bool {
    json_method_of(s) is Some && json_log_type_of(s) is Some && json_log_message_of(s) is Some
}

/// True when the payload matches the diagnostics-notification shape: a
/// `method` string and `params` carrying a `diagnostics` field.
pub open spec fn diagnostics_shape(s: Seq<char>) -> bool {
    json_method_of(s) is Some && json_has_diagnostics(s)
}

/// True when the payload matches one of the three known message shapes.
pub open spec fn known_shape(s: Seq<char>) -> bool {
    response_shape(s) || log_shape(s) || diagnostics_shape(s)
}

/// The decoded message a payload of text `s` yields: the shapes are tried
/// in the fixed priority order response, log notification, diagnostics
/// notification, and the winning shape's fields fill the variant.
pub open spec fn message_matches(m: Message, s: Seq<char>) -> bool {
    if response_shape(s) {
        m matches Message::Response { id, result } && json_id_of(s) == Some(id) && json_status_of(
            s,
        ) == Some(result.status@) && json_exit_code_of(s) == Some(result.exit_code)
    } else if log_shape(s) {
        m matches Message::LogMessage { method, params } && json_method_of(s) == Some(method@)
            && json_log_type_of(s) == Some(params.type_) && json_log_message_of(s) == Some(
            params.message@,
        )
    } else if diagnostics_shape(s) {
        m matches Message::PublishDiagnostics { method } && json_method_of(s) == Some(method@)
    } else {
        false
    }
}

/// The error text reported for a payload that matches no known shape; it
/// carries the offending payload text.
pub open spec fn decode_failure_message(s: Seq<char>) -> Seq<char> {
    "Failed to deserialize message from JSON '"@ + s
        + "'. Details: the payload matches no known message shape"@
}

/// Decodes one inbound payload text into a message, by the shape of the
/// JSON it holds.  A payload that matches none of the three known shapes is
/// refused with an error naming the offending text.
pub fn decode_message(text: &str) -> (r: Result<Message, SbtClientError>)
    ensures
        r is Ok <==> known_shape(text@),
        r matches Ok(m) ==> message_matches(m, text@),
        r matches Err(e) ==> e.message@ == decode_failure_message(text@),
{
    let (id, status, exit_code) = extract_response_fields(text);
    if id.is_some() && status.is_some() && exit_code.is_some() {
        return Ok(
            Message::Response {
                id: id.unwrap(),
                result: CommandResult { status: status.unwrap(), exit_code: exit_code.unwrap() },
            },
        );
    }
    let (method, log_type, log_message, has_diagnostics) = extract_notification_fields(text);
    if method.is_some() && log_type.is_some() && log_message.is_some() {
        return Ok(
            Message::LogMessage {
                method: method.unwrap(),
                params: LogMessageParams {
                    type_: log_type.unwrap(),
                    message: log_message.unwrap(),
                },
            },
        );
    }
    if method.is_some() && has_diagnostics {
        return Ok(Message::PublishDiagnostics { method: method.unwrap() });
    }
    let mut m: String = "Failed to deserialize message from JSON '".to_owned();
    m.append(text);
    m.append("'. Details: the payload matches no known message shape");
    proof {
        assert(m@ =~= decode_failure_message(text@));
    }
    Err(SbtClientError { message: m })
}

} // verus!
