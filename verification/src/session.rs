use vstd::prelude::*;
use vstd::utf8::decode_utf8;
use vstd::utf8::encode_utf8;
use vstd::utf8::valid_utf8;

use crate::command::command_json;
use crate::command::serialize_command;
use crate::command::Command;
use crate::errors::detailed_error;
use crate::errors::detailed_message;
use crate::errors::SbtClientError;
use crate::frame::framed_command;
use crate::frame::with_content_length_header;
use crate::message::decode_failure_message;
use crate::message::decode_message;
use crate::message::known_shape;
use crate::message::message_matches;
use crate::message::Message;

verus! {

/// The two states of a session: still waiting for the response correlated
/// to the outbound request, or finished.
#[derive(PartialEq, Eq, Structural, Clone, Copy, Debug)]
pub enum SessionState {
    AwaitingTerminal,
    Done,
}

/// True of the one message that ends a session: a response correlated to
/// the outbound command's fixed request id.
pub open spec fn spec_is_terminal(m: Message) -> bool {
    match m {
        Message::Response { id, result: _ } => id == 1,
        _ => false,
    }
}

/// Decides whether a decoded message is the terminal response to the
/// session's own request.
pub fn is_terminal_message(m: &Message) -> (r: bool)
    ensures
        r == spec_is_terminal(*m),
{
    match m {
        Message::Response { id, result: _ } => *id == 1,
        _ => false,
    }
}

/// How the session state moves on one decoded message: only the terminal
/// response leaves the waiting state, and the finished state is absorbing.
pub open spec fn spec_step(s: SessionState, m: Message) -> SessionState {
    match s {
        SessionState::Done => SessionState::Done,
        SessionState::AwaitingTerminal => if spec_is_terminal(m) {
            SessionState::Done
        } else {
            SessionState::AwaitingTerminal
        },
    }
}

/// Advances the session state on one decoded message.  A waiting session
/// finishes exactly on a response whose id equals the outbound request's
/// fixed id; every other message leaves it waiting.
pub fn step(s: SessionState, m: &Message) -> (r: SessionState)
    ensures
        r == spec_step(s, *m),
        s == SessionState::AwaitingTerminal ==> ((r == SessionState::Done) <==> spec_is_terminal(
            *m,
        )),
{
    match s {
        SessionState::Done => SessionState::Done,
        SessionState::AwaitingTerminal => if is_terminal_message(m) {
            SessionState::Done
        } else {
            SessionState::AwaitingTerminal
        },
    }
}

/// Variant discrimination: among decoded messages, exactly a response
/// carrying the outbound request's fixed id ends the session; a response
/// with another id, a log notification and a diagnostics notification all
/// leave it waiting.
pub proof fn lemma_terminal_discrimination(m: Message, t: Seq<char>)
    requires
        crate::message::message_matches(m, t),
    ensures
        spec_is_terminal(m) <==> (crate::message::response_shape(t) && crate::message::json_id_of(
            t,
        ) == Some(1u64)),
        spec_step(SessionState::AwaitingTerminal, m) == SessionState::Done <==> (
        crate::message::response_shape(t) && crate::message::json_id_of(t) == Some(1u64)),
{
}

/// Serializes and frames the session's outbound command.  Fails only when
/// the framed text would not fit the machine's word, which the wire
/// protocol's declared-length arithmetic cannot represent.
pub fn outbound_frame(command: &Command) -> (r: Result<Vec<u8>, SbtClientError>)
    ensures
        r is Ok <==> encode_utf8(command_json(*command)).len() + 2 <= usize::MAX,
        r matches Ok(v) ==> v@ == encode_utf8(framed_command(command_json(*command))),
{
    let json = serialize_command(command);
    let byte_len = crate::frame::str_byte_len(json.as_str());
    if byte_len > usize::MAX - 2 {
        return Err(
            detailed_error("Failed to serialize command to JSON", "the command is too large"),
        );
    }
    Ok(with_content_length_header(json.as_str()))
}

/// Decodes one frame payload and decides whether it ends the session:
/// interprets the bytes as UTF-8 text, classifies the text by its shape,
/// and checks the decoded message against the terminal-response test.
pub fn handle_payload(payload: Vec<u8>) -> (r: Result<(Message, bool), SbtClientError>)
    ensures
        r is Ok <==> valid_utf8(payload@) && known_shape(decode_utf8(payload@)),
        r matches Ok(p) ==> message_matches(p.0, decode_utf8(payload@)) && p.1 == spec_is_terminal(
            p.0,
        ),
        !valid_utf8(payload@) ==> (r matches Err(e) && exists|d: Seq<char>|
            e.message@ == detailed_message("Failed to decode message as UTF-8 string"@, d)),
        valid_utf8(payload@) && !known_shape(decode_utf8(payload@)) ==> (r matches Err(e)
            && e.message@ == decode_failure_message(decode_utf8(payload@))),
{
    broadcast use vstd::utf8::encode_utf8_decode_utf8;

    let text = match crate::frame::bytes_to_utf8(payload) {
        Ok(t) => t,
        Err(d) => {
            let e = detailed_error("Failed to decode message as UTF-8 string", d.as_str());
            proof {
                assert(e.message@ == detailed_message(
                    "Failed to decode message as UTF-8 string"@,
                    d@,
                ));
            }
            return Err(e);
        },
    };
    let message = match decode_message(text.as_str()) {
        Ok(m) => m,
        Err(e) => {
            return Err(e);
        },
    };
    let done = is_terminal_message(&message);
    Ok((message, done))
}

} // verus!
