use rara::lsp_manager::cache::append_bounded_tail;
use rara::lsp_manager::protocol::{
    content_length_header, header_line, parse_usize, response_channel_closed_failure, response_timeout_failure, route,
    server_reply, truncated_body_failure, HeaderLine, HeaderReader, HeaderStep, ParseIntErrorKind, Route, ServerReply,
};
use rara::lsp_manager::types::{all_server_kinds, LspFailureKind, ServerKind};

#[test]
fn frames_bodies_with_their_byte_length() {
    assert_eq!(content_length_header(0), "Content-Length: 0\r\n\r\n");
    assert_eq!(content_length_header(1234), "Content-Length: 1234\r\n\r\n");
}

#[test]
fn parses_unsigned_integers_as_str_parse_does() {
    assert_eq!(parse_usize("42"), Ok(42));
    assert_eq!(parse_usize("+7"), Ok(7));
    assert_eq!(parse_usize(""), Err(ParseIntErrorKind::Empty));
    assert_eq!(parse_usize("+"), Err(ParseIntErrorKind::InvalidDigit));
    assert_eq!(parse_usize("-1"), Err(ParseIntErrorKind::InvalidDigit));
    assert_eq!(parse_usize("12a"), Err(ParseIntErrorKind::InvalidDigit));
    assert_eq!(parse_usize("99999999999999999999999"), Err(ParseIntErrorKind::PosOverflow));
    assert_eq!(ParseIntErrorKind::Empty.message(), "".parse::<usize>().unwrap_err().to_string());
    assert_eq!(ParseIntErrorKind::InvalidDigit.message(), "x".parse::<usize>().unwrap_err().to_string());
    assert_eq!(
        ParseIntErrorKind::PosOverflow.message(),
        "99999999999999999999999".parse::<usize>().unwrap_err().to_string()
    );
}

#[test]
fn reads_content_length_case_insensitively() {
    assert_eq!(header_line("content-length: 17\r\n"), HeaderLine::ContentLength(Ok(17)));
    assert_eq!(header_line("CONTENT-LENGTH:   5  \n"), HeaderLine::ContentLength(Ok(5)));
    assert_eq!(header_line("Content-Type: application/json\r\n"), HeaderLine::Other);
    assert_eq!(header_line("\r\n"), HeaderLine::End);
    assert_eq!(header_line("Content-Length: x\r\n"), HeaderLine::ContentLength(Err(ParseIntErrorKind::InvalidDigit)));

    let mut reader = HeaderReader::new();
    assert!(matches!(reader.feed(Some("Content-Length: 10\r\n")), HeaderStep::Continue));
    assert!(matches!(reader.feed(Some("content-length: 12\r\n")), HeaderStep::Continue));
    assert!(matches!(reader.feed(Some("Content-Type: x\r\n")), HeaderStep::Continue));
    assert!(matches!(reader.feed(Some("\r\n")), HeaderStep::Body(12)));
}

#[test]
fn header_without_length_or_with_a_bad_one_fails() {
    let mut reader = HeaderReader::new();
    match reader.feed(Some("\r\n")) {
        HeaderStep::Fail(f) => {
            assert_eq!(f.kind, LspFailureKind::ProtocolError);
            assert_eq!(f.message, "LSP message omitted Content-Length");
            assert!(f.retryable);
        }
        _ => panic!("expected a failure"),
    }
    let mut reader = HeaderReader::new();
    match reader.feed(Some("Content-Length: \r\n")) {
        HeaderStep::Fail(f) => {
            assert_eq!(f.message, "invalid LSP Content-Length: cannot parse integer from empty string")
        }
        _ => panic!("expected a failure"),
    }
    let mut reader = HeaderReader::new();
    assert!(matches!(reader.feed(None), HeaderStep::EndOfStream));
}

#[test]
fn routes_messages_and_answers_server_requests() {
    assert_eq!(route(false, true), Route::Response);
    assert_eq!(route(true, true), Route::ServerRequest);
    assert_eq!(route(true, false), Route::Notification);
    assert_eq!(route(false, false), Route::Ignore);
    assert_eq!(server_reply("client/registerCapability"), ServerReply::Null);
    assert_eq!(server_reply("window/workDoneProgress/create"), ServerReply::Null);
    assert_eq!(server_reply("workspace/configuration"), ServerReply::NullPerItem);
    assert_eq!(server_reply("workspace/workspaceFolders"), ServerReply::WorkspaceFolders);
    assert_eq!(
        server_reply("workspace/applyEdit"),
        ServerReply::Unsupported { code: -32601, message: "unsupported LSP server request: workspace/applyEdit".to_string() }
    );
}

#[test]
fn request_failures_name_the_server_and_request() {
    let f = truncated_body_failure(ServerKind::Gopls, 42, "unexpected end of file");
    assert_eq!(f.message, "gopls closed stdout while reading a 42-byte LSP message: unexpected end of file");
    assert_eq!(f.server.as_deref(), Some("gopls"));
    let f = response_channel_closed_failure(ServerKind::RustAnalyzer, 3, "channel closed");
    assert_eq!(f.message, "rust-analyzer response channel for request 3 closed: channel closed");
    let f = response_timeout_failure(ServerKind::TypeScript, LspFailureKind::InitializeTimeout, 1, "10s");
    assert_eq!(f.kind, LspFailureKind::InitializeTimeout);
    assert_eq!(f.message, "typescript-language-server timed out waiting 10s for LSP response id 1");
}

#[test]
fn server_kinds_know_their_files() {
    let kinds = all_server_kinds();
    assert_eq!(kinds, [ServerKind::RustAnalyzer, ServerKind::Gopls, ServerKind::TypeScript]);
    assert_eq!(ServerKind::RustAnalyzer.detect_file(), "Cargo.toml");
    assert_eq!(ServerKind::Gopls.language_id(), "go");
    assert_eq!(ServerKind::TypeScript.extensions(), vec![".ts", ".tsx", ".js", ".jsx"]);
    assert_eq!(ServerKind::TypeScript.command(), vec!["typescript-language-server".to_string(), "--stdio".to_string()]);
}

#[test]
fn stderr_tail_keeps_the_last_bytes() {
    let mut tail = Vec::new();
    append_bounded_tail(&mut tail, b"hello ");
    append_bounded_tail(&mut tail, b"world");
    assert_eq!(tail, b"hello world".to_vec());
    let big = vec![b'x'; 20_000];
    append_bounded_tail(&mut tail, &big);
    assert!(tail.len() < 20_000);
    assert!(tail.iter().all(|b| *b == b'x'));
}
