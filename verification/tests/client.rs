use sbt_client::command::build_command;
use sbt_client::command::json_escape_str;
use sbt_client::command::serialize_command;
use sbt_client::command::Command;
use sbt_client::command::CommandParams;
use sbt_client::digits::parse_usize_digits;
use sbt_client::digits::u64_to_dec;
use sbt_client::errors::detailed_error;
use sbt_client::errors::error;
use sbt_client::frame::ends_with_double_newline;
use sbt_client::frame::extract_content_length;
use sbt_client::frame::headers_to_string;
use sbt_client::frame::read_frame;
use sbt_client::frame::with_content_length_header;
use sbt_client::message::decode_message;
use sbt_client::message::Message;
use sbt_client::render::render;
use sbt_client::render::render_log;
use sbt_client::render::render_response;
use sbt_client::session::handle_payload;
use sbt_client::session::is_terminal_message;
use sbt_client::session::outbound_frame;
use sbt_client::session::step;
use sbt_client::session::SessionState;

#[test]
fn frames_a_command_with_declared_length_and_suffix() {
    let bytes = with_content_length_header("hello");
    assert_eq!(bytes, b"Content-Length: 7\r\n\r\nhello\r\n".to_vec());
}

#[test]
fn frame_round_trip_returns_the_payload_exactly() {
    let bytes = with_content_length_header("hello");
    let (payload, consumed) = read_frame(&bytes).unwrap();
    assert_eq!(payload, b"hello\r\n".to_vec());
    assert_eq!(consumed, bytes.len());
}

#[test]
fn frame_reader_does_not_peek_past_the_declared_payload() {
    let mut stream = b"Content-Length: 3\r\n\r\nabc".to_vec();
    let first_len = stream.len();
    stream.extend_from_slice(b"Content-Length: 9999\r\n\r\ngarbage");
    let (payload, consumed) = read_frame(&stream).unwrap();
    assert_eq!(payload, b"abc".to_vec());
    assert_eq!(consumed, first_len);
}

#[test]
fn content_length_fidelity_for_a_sample_of_lengths() {
    for n in [0usize, 1, 9, 10, 99, 4096] {
        let headers = format!("Content-Length: {}\r\n\r\n", n);
        let mut stream = headers.into_bytes();
        for i in 0..n {
            stream.push((i % 251) as u8);
        }
        let (payload, consumed) = read_frame(&stream).unwrap();
        assert_eq!(payload.len(), n);
        assert_eq!(consumed, stream.len());
    }
}

#[test]
fn extract_content_length_reads_the_first_match() {
    let r = extract_content_length("Content-Length: 123\r\n\r\n".to_string());
    assert_eq!(r.unwrap(), 123);
    let r = extract_content_length("X: y\r\nContent-Length: 0\r\nZ: w\r\n\r\n".to_string());
    assert_eq!(r.unwrap(), 0);
    let r = extract_content_length("A: Content-Length: 7 first\r\nContent-Length: 9\r\n".to_string());
    assert_eq!(r.unwrap(), 7);
}

#[test]
fn extract_content_length_fails_without_a_numeric_length() {
    let r = extract_content_length("Content-Type: text\r\n\r\n".to_string());
    assert_eq!(
        r.err().unwrap().message,
        "Failed to extract content length from headers"
    );
    let r = extract_content_length("Content-Length: abc\r\n\r\n".to_string());
    assert_eq!(
        r.err().unwrap().message,
        "Failed to extract content length from headers"
    );
    let r = extract_content_length("Content-Length: 99999999999999999999999\r\n\r\n".to_string());
    let message = r.err().unwrap().message;
    assert!(message.contains("number too large to fit in target type"));
}

#[test]
fn header_terminator_detection() {
    assert!(ends_with_double_newline(&b"Content-Length: 3\r\n\r\n".to_vec()));
    assert!(!ends_with_double_newline(&b"Content-Length: 3\r\n\r".to_vec()));
    assert!(!ends_with_double_newline(&b"\r\n".to_vec()));
    assert!(ends_with_double_newline(&b"\r\n\r\n".to_vec()));
    assert!(!ends_with_double_newline(&b"\n\n\n\n".to_vec()));
}

#[test]
fn header_bytes_must_be_utf8() {
    let r = headers_to_string(vec![0xff, 0xfe, 13, 10, 13, 10]);
    let message = r.err().unwrap().message;
    assert!(message.starts_with("Failed to read headers as a UTF-8 string. Details: "));
    let r = headers_to_string(b"Content-Length: 3\r\n\r\n".to_vec());
    assert_eq!(r.ok().unwrap(), "Content-Length: 3\r\n\r\n");
}

#[test]
fn digits_render_and_parse() {
    assert_eq!(u64_to_dec(0), "0");
    assert_eq!(u64_to_dec(10), "10");
    assert_eq!(u64_to_dec(905), "905");
    assert_eq!(u64_to_dec(u64::MAX), format!("{}", u64::MAX));
    assert_eq!(parse_usize_digits("00042"), Some(42));
    assert_eq!(parse_usize_digits("99999999999999999999999"), None);
}

#[test]
fn decodes_a_response_payload() {
    let m = decode_message("{\"id\":1,\"result\":{\"status\":\"done\",\"exitCode\":0}}").unwrap();
    match m {
        Message::Response { id, result } => {
            assert_eq!(id, 1);
            assert_eq!(result.status, "done");
            assert_eq!(result.exit_code, 0);
        }
        _ => panic!("expected a response"),
    }
}

#[test]
fn decodes_a_log_payload() {
    let m = decode_message(
        "{\"method\":\"window/logMessage\",\"params\":{\"type\":2,\"message\":\"careful\"}}",
    )
    .unwrap();
    match m {
        Message::LogMessage { method, params } => {
            assert_eq!(method, "window/logMessage");
            assert_eq!(params.type_, 2);
            assert_eq!(params.message, "careful");
        }
        _ => panic!("expected a log message"),
    }
}

#[test]
fn decodes_a_diagnostics_payload() {
    let m = decode_message(
        "{\"method\":\"textDocument/publishDiagnostics\",\"params\":{\"uri\":\"f.scala\",\"diagnostics\":[]}}",
    )
    .unwrap();
    match m {
        Message::PublishDiagnostics { method } => {
            assert_eq!(method, "textDocument/publishDiagnostics");
        }
        _ => panic!("expected a diagnostics notification"),
    }
}

#[test]
fn response_shape_wins_over_notification_shapes() {
    let m = decode_message(
        "{\"id\":1,\"result\":{\"status\":\"done\",\"exitCode\":0},\"method\":\"m\",\"params\":{\"type\":1,\"message\":\"x\",\"diagnostics\":[]}}",
    )
    .unwrap();
    assert!(matches!(m, Message::Response { .. }));
}

#[test]
fn unknown_shape_fails_with_the_offending_text() {
    let raw = "{\"jsonrpc\":\"2.0\",\"something\":\"else\"}";
    let e = decode_message(raw).err().unwrap();
    assert!(e.message.contains(raw));
    assert!(e
        .message
        .starts_with("Failed to deserialize message from JSON '"));
}

#[test]
fn invalid_json_fails_with_the_offending_text() {
    let raw = "not json at all";
    let e = decode_message(raw).err().unwrap();
    assert!(e.message.contains(raw));
}

#[test]
fn serializes_the_compile_command() {
    let c = build_command("compile".to_string());
    let json = serialize_command(&c);
    assert_eq!(
        json,
        "{\"jsonrpc\":\"2.0\",\"id\":1,\"method\":\"sbt/exec\",\"params\":{\"commandLine\":\"compile\"}}"
    );
}

#[test]
fn serialized_command_parses_back_with_a_json_parser() {
    let c = build_command("run \"main\" \\ fast\n".to_string());
    let json = serialize_command(&c);
    let v: serde_json::Value = serde_json::from_str(&json).unwrap();
    assert_eq!(v["jsonrpc"], serde_json::Value::String("2.0".to_string()));
    assert_eq!(v["id"].as_u64(), Some(1));
    assert_eq!(
        v["method"],
        serde_json::Value::String("sbt/exec".to_string())
    );
    assert_eq!(
        v["params"]["commandLine"],
        serde_json::Value::String("run \"main\" \\ fast\n".to_string())
    );
}

#[test]
fn escapes_json_control_characters_like_a_json_serializer() {
    let raw = "a\"b\\c\u{8}\u{9}\u{a}\u{c}\u{d}\u{1b}\u{1f}z";
    let escaped = json_escape_str(raw);
    assert_eq!(escaped, "a\\\"b\\\\c\\b\\t\\n\\f\\r\\u001b\\u001fz");
    let quoted = serde_json::to_string(raw).unwrap();
    assert_eq!(format!("\"{}\"", escaped), quoted);
}

#[test]
fn outbound_frame_matches_the_wire_contract() {
    let c = build_command("compile".to_string());
    let json = serialize_command(&c);
    let frame = outbound_frame(&c).unwrap();
    let expected = format!("Content-Length: {}\r\n\r\n{}\r\n", json.len() + 2, json);
    assert_eq!(frame, expected.into_bytes());
}

#[test]
fn renders_log_levels_with_their_colours() {
    assert_eq!(render_log(1, "boom".to_string()), "[\u{1b}[31merror\u{1b}[0m] boom");
    assert_eq!(
        render_log(2, "careful".to_string()),
        "[\u{1b}[33mwarning\u{1b}[0m] careful"
    );
    assert_eq!(render_log(3, "fyi".to_string()), "[\u{1b}[37minfo\u{1b}[0m] fyi");
    assert_eq!(render_log(0, "fyi".to_string()), "[\u{1b}[37minfo\u{1b}[0m] fyi");
}

#[test]
fn renders_the_response_status_in_green() {
    assert_eq!(
        render_response("done".to_string(), 0),
        "[success] \u{1b}[32mdone\u{1b}[0m"
    );
}

#[test]
fn renders_messages_by_variant() {
    let m = decode_message("{\"id\":1,\"result\":{\"status\":\"done\",\"exitCode\":0}}").unwrap();
    assert_eq!(render(m), Some("[success] \u{1b}[32mdone\u{1b}[0m".to_string()));
    let m = decode_message(
        "{\"method\":\"textDocument/publishDiagnostics\",\"params\":{\"diagnostics\":[]}}",
    )
    .unwrap();
    assert_eq!(render(m), None);
}

#[test]
fn only_a_response_with_the_session_id_is_terminal() {
    let own = decode_message("{\"id\":1,\"result\":{\"status\":\"done\",\"exitCode\":0}}").unwrap();
    let other = decode_message("{\"id\":2,\"result\":{\"status\":\"done\",\"exitCode\":0}}").unwrap();
    let log = decode_message(
        "{\"method\":\"window/logMessage\",\"params\":{\"type\":1,\"message\":\"x\"}}",
    )
    .unwrap();
    assert!(is_terminal_message(&own));
    assert!(!is_terminal_message(&other));
    assert!(!is_terminal_message(&log));
    assert_eq!(step(SessionState::AwaitingTerminal, &own), SessionState::Done);
    assert_eq!(
        step(SessionState::AwaitingTerminal, &other),
        SessionState::AwaitingTerminal
    );
    assert_eq!(
        step(SessionState::AwaitingTerminal, &log),
        SessionState::AwaitingTerminal
    );
    assert_eq!(step(SessionState::Done, &log), SessionState::Done);
}

#[test]
fn handle_payload_classifies_and_flags_the_terminal_response() {
    let (m, done) =
        handle_payload(b"{\"id\":1,\"result\":{\"status\":\"done\",\"exitCode\":0}}".to_vec())
            .unwrap();
    assert!(done);
    assert!(matches!(m, Message::Response { .. }));
    let (_, done) = handle_payload(
        b"{\"method\":\"window/logMessage\",\"params\":{\"type\":3,\"message\":\"hi\"}}".to_vec(),
    )
    .unwrap();
    assert!(!done);
}

#[test]
fn handle_payload_rejects_bytes_that_are_not_utf8() {
    let e = handle_payload(vec![0xff, 0x00, 0x41]).err().unwrap();
    assert!(e
        .message
        .starts_with("Failed to decode message as UTF-8 string. Details: "));
}

#[test]
fn a_whole_session_against_a_recorded_server() {
    // The server's side of the compile scenario, as two recorded frames.
    let mut stream: Vec<u8> = Vec::new();
    let log = "{\"method\":\"window/logMessage\",\"params\":{\"type\":3,\"message\":\"Compiling...\"}}";
    let response = "{\"id\":1,\"result\":{\"status\":\"done\",\"exitCode\":0}}";
    stream.extend_from_slice(format!("Content-Length: {}\r\n\r\n{}", log.len(), log).as_bytes());
    stream.extend_from_slice(
        format!("Content-Length: {}\r\n\r\n{}", response.len(), response).as_bytes(),
    );

    let command = build_command("compile".to_string());
    let frame = outbound_frame(&command).unwrap();
    let expected_payload =
        "{\"jsonrpc\":\"2.0\",\"id\":1,\"method\":\"sbt/exec\",\"params\":{\"commandLine\":\"compile\"}}";
    let expected_frame = format!(
        "Content-Length: {}\r\n\r\n{}\r\n",
        expected_payload.len() + 2,
        expected_payload
    );
    assert_eq!(frame, expected_frame.into_bytes());

    let mut state = SessionState::AwaitingTerminal;
    let mut lines: Vec<String> = Vec::new();
    let mut cursor = 0usize;
    while state == SessionState::AwaitingTerminal {
        let rest = stream[cursor..].to_vec();
        let (payload, consumed) = read_frame(&rest).unwrap();
        cursor += consumed;
        let (message, _) = handle_payload(payload).unwrap();
        state = step(state, &message);
        if let Some(line) = render(message) {
            lines.push(line);
        }
    }
    assert_eq!(state, SessionState::Done);
    assert_eq!(cursor, stream.len());
    assert_eq!(
        lines,
        vec![
            "[\u{1b}[37minfo\u{1b}[0m] Compiling...".to_string(),
            "[success] \u{1b}[32mdone\u{1b}[0m".to_string(),
        ]
    );
}

#[test]
fn a_failed_connection_renders_one_error_line() {
    let e = detailed_error(
        "Failed to connect to Unix socket",
        "No such file or directory (os error 2)",
    );
    let line = render_log(1, e.message);
    assert!(line.starts_with("[\u{1b}[31merror\u{1b}[0m] Failed to connect to Unix socket"));
    assert!(line.contains("No such file or directory"));
}

#[test]
fn plain_errors_carry_their_description() {
    assert_eq!(error("boom").message, "boom");
    assert_eq!(
        detailed_error("op failed", "cause").message,
        "op failed. Details: cause"
    );
}
