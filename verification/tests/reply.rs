use tor_controller::control::Controller;
use tor_controller::reply::{
    parse_reply, Error, RawReplyError, ReplyLine, ReplyParser, ReplyStatus,
};

fn raw(lines: &[&str]) -> Vec<String> {
    lines.iter().map(|l| l.to_string()).collect()
}

fn line(text: &str) -> ReplyLine {
    ReplyLine { reply: text.to_string(), data: None }
}

#[test]
fn lines_of_one_status_code_come_out_in_order() {
    let reply = parse_reply(&raw(&["250-first\r\n", "250-second\r\n", "250 OK\r\n"])).unwrap();
    assert_eq!(reply.lines, vec![line("first"), line("second"), line("OK")]);
}

#[test]
fn varying_status_code_is_rejected() {
    let res = parse_reply(&raw(&["250-A\r\n", "251 B\r\n"]));
    assert_eq!(res, Err(Error::RawReply(RawReplyError::VaryingStatusCode)));
}

#[test]
fn data_block_is_one_line_with_its_payload() {
    let reply = parse_reply(&raw(&[
        "250+info=\r\n",
        "alpha\r\n",
        "\r\n",
        "beta\r\n",
        ".\r\n",
        "250 OK\r\n",
    ]))
    .unwrap();
    assert_eq!(
        reply.lines,
        vec![
            ReplyLine { reply: "info=".to_string(), data: Some("alpha\n\nbeta\n".to_string()) },
            line("OK"),
        ]
    );
}

#[test]
fn empty_data_block_has_empty_payload() {
    let reply = parse_reply(&raw(&["250+k=\r\n", ".\r\n", "250 OK\r\n"])).unwrap();
    assert_eq!(reply.lines[0].data, Some(String::new()));
}

#[test]
fn lines_after_the_last_are_not_read() {
    let reply = parse_reply(&raw(&["250 OK\r\n", "garbage"])).unwrap();
    assert_eq!(reply.lines, vec![line("OK")]);
}

#[test]
fn permanent_failure_carries_code_class_and_first_line() {
    match parse_reply(&raw(&["552 Unrecognized key \"foo\"\r\n"])) {
        Err(Error::Reply(e)) => {
            assert_eq!(e.code, 552);
            assert_eq!(e.status, ReplyStatus::PermNegative);
            assert_eq!(e.line, "Unrecognized key \"foo\"");
        }
        other => panic!("unexpected {:?}", other),
    }
}

#[test]
fn temporary_and_asynchronous_classes() {
    match parse_reply(&raw(&["451-busy\r\n", "451 later\r\n"])) {
        Err(Error::Reply(e)) => {
            assert_eq!((e.code, e.status), (451, ReplyStatus::TempNegative));
            assert_eq!(e.line, "busy");
        }
        other => panic!("unexpected {:?}", other),
    }
    match parse_reply(&raw(&["650 CIRC 1\r\n"])) {
        Err(Error::Reply(e)) => assert_eq!((e.code, e.status), (650, ReplyStatus::Async)),
        other => panic!("unexpected {:?}", other),
    }
}

#[test]
fn framing_errors() {
    let bad = |lines: &[&str]| parse_reply(&raw(lines)).unwrap_err();
    assert_eq!(bad(&["250\r\n"]), Error::RawReply(RawReplyError::InvalidReplyLine));
    assert_eq!(bad(&["2x0 OK\r\n"]), Error::RawReply(RawReplyError::NonNumericStatusCode));
    assert_eq!(bad(&["250*OK\r\n"]), Error::RawReply(RawReplyError::InvalidReplyMode));
    assert_eq!(bad(&["350 OK\r\n"]), Error::RawReply(RawReplyError::InvalidStatusCode));
    assert_eq!(bad(&[]), Error::RawReply(RawReplyError::InvalidStatusCode));
    assert_eq!(bad(&["250+k=\r\n", "x"]), Error::RawReply(RawReplyError::InvalidReplyLine));
    assert_eq!(bad(&["550+k=\r\n", "xy\r\n"]), Error::RawReply(RawReplyError::InvalidReply));
}

#[test]
fn parser_tells_when_the_reply_is_over() {
    let mut parser = ReplyParser::new();
    assert_eq!(parser.feed("250-A\r\n"), Ok(false));
    assert_eq!(parser.feed("250+B\r\n"), Ok(false));
    assert_eq!(parser.feed("250 not a reply line\r\n"), Ok(false));
    assert_eq!(parser.feed(".\r\n"), Ok(false));
    assert_eq!(parser.feed("251 C\r\n"), Err(RawReplyError::VaryingStatusCode));
    assert_eq!(parser.feed("250 C\r\n"), Ok(true));
    let reply = parser.finish().unwrap();
    assert_eq!(reply.lines.len(), 3);
    assert_eq!(reply.lines[1].data, Some("250 not a reply line\n".to_string()));
}

#[test]
fn controller_frames_commands_and_assembles_replies() {
    let mut c = Controller::new();
    assert_eq!(c.raw_cmd("GETINFO version"), "GETINFO version\r\n");
    assert_eq!(c.receive("250-version=0.3.5.8\r\n"), None);
    let reply = c.receive("250 OK\r\n").unwrap().unwrap();
    assert_eq!(reply.lines, vec![line("version=0.3.5.8"), line("OK")]);
    assert_eq!(c.cmd_quit(), "QUIT\r\n");
    assert_eq!(c.receive("250 closing connection\r\n").unwrap().unwrap().lines.len(), 1);
    assert_eq!(c.cmd_protocolinfo(), "PROTOCOLINFO\r\n");
    assert_eq!(c.receive("250-x\r\n"), None);
    assert_eq!(c.end_of_stream().unwrap().lines, vec![line("x")]);
    assert_eq!(c.end_of_stream(), Err(Error::RawReply(RawReplyError::InvalidStatusCode)));
    assert_eq!(c.receive("bad"), Some(Err(Error::RawReply(RawReplyError::InvalidReplyLine))));
}
