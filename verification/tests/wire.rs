//! The wire format, the command line, the socket, the watcher.

use dynamicnoti::binding::Value;
use dynamicnoti::cli::{
    infer_value, parse_close, parse_command, parse_post, report, socket_path, value_texts, Command,
};
use dynamicnoti::events::OutboundEvent;
use dynamicnoti::ipc::{action, close_response, frame_response, post_response, Action, Outcome};
use dynamicnoti::names::NameMap;
use dynamicnoti::number::{Number, Readings};
use dynamicnoti::proto::{
    body_len, decode_frame, encode_frame, read_failure, FrameError, FrameReader, Request, Response,
    WireValue, LEN_PREFIX_BYTES, MAX_FRAME,
};
use dynamicnoti::sources::{fd_id, fd_key, forward, wire_to_value, FdSignal, Reloaded};
use dynamicnoti::watcher::{affected, classify, Changed};
use dynamicnoti::SourceKind;
use std::io::{Cursor, ErrorKind, Read, Write};

fn number(v: f64) -> Number {
    Number { bits: v.to_bits(), text: v.to_string() }
}

fn args(list: &[&str]) -> Vec<String> {
    list.iter().map(|s| s.to_string()).collect()
}

fn readings(texts: &[&str]) -> Readings {
    let mut m: Readings = NameMap::new();
    for t in texts {
        if let Ok(v) = t.parse::<f64>() {
            m.insert(t.to_string(), number(v));
        }
    }
    m
}

/// Reads one frame off a stream.
fn read_body(r: &mut Cursor<Vec<u8>>) -> Result<Vec<u8>, FrameError> {
    let mut reader = FrameReader::new();
    loop {
        let mut bytes = vec![0u8; reader.wants()];
        r.read_exact(&mut bytes)
            .map_err(|e| read_failure(e.kind() == ErrorKind::UnexpectedEof, e.to_string()))?;
        if let Some(body) = reader.feed(bytes)? {
            return Ok(body);
        }
    }
}

// ---- frames ------------------------------------------------------------------------------

#[test]
fn frame_roundtrips_through_buffer() {
    let body = br#"{"cmd":"close","replace_key":"mpris:single"}"#;
    let frame = encode_frame(body).unwrap();
    // 4-byte prefix + body, and the prefix matches the body length.
    let len = u32::from_le_bytes([frame[0], frame[1], frame[2], frame[3]]) as usize;
    assert_eq!(len, frame.len() - LEN_PREFIX_BYTES);
    let back = decode_frame(&frame).unwrap();
    assert_eq!(&back[..], &body[..]);
}

#[test]
fn oversized_length_prefix_is_rejected() {
    let mut frame = (MAX_FRAME as u32 + 1).to_le_bytes().to_vec();
    frame.extend_from_slice(b"{}");
    let err = decode_frame(&frame).unwrap_err();
    assert!(matches!(err, FrameError::TooLarge(_)));
}

#[test]
fn truncated_frame_is_detected() {
    // Claims 100 bytes but provides none.
    let frame = 100u32.to_le_bytes().to_vec();
    let err = decode_frame(&frame).unwrap_err();
    assert!(matches!(err, FrameError::Truncated));

    // A short read on the blocking path also reports Truncated.
    let mut cursor = Cursor::new(frame);
    let err = read_body(&mut cursor).unwrap_err();
    assert!(matches!(err, FrameError::Truncated));
}

#[test]
fn blocking_read_write_roundtrip() {
    let resp = br#"{"status":"ok","id":7}"#;
    let mut buf = Vec::new();
    buf.write_all(&encode_frame(resp).unwrap()).unwrap();
    let mut cursor = Cursor::new(buf);
    let back = read_body(&mut cursor).unwrap();
    assert_eq!(&back[..], &resp[..]);
}

#[test]
fn frames_are_read_one_after_the_other() {
    let mut stream = encode_frame(b"first").unwrap();
    stream.extend(encode_frame(b"").unwrap());
    stream.extend(encode_frame(b"third").unwrap());
    let mut cursor = Cursor::new(stream);
    assert_eq!(read_body(&mut cursor).unwrap(), b"first".to_vec());
    assert_eq!(read_body(&mut cursor).unwrap(), b"".to_vec());
    assert_eq!(read_body(&mut cursor).unwrap(), b"third".to_vec());
    assert!(matches!(read_body(&mut cursor), Err(FrameError::Truncated)));
    let mut large = Cursor::new(vec![255u8; 8]);
    assert!(matches!(read_body(&mut large), Err(FrameError::TooLarge(4_294_967_295))));
    assert_eq!(large.position(), 4);
    assert_eq!(read_failure(false, "broken".into()), FrameError::Io("broken".into()));
}

#[test]
fn frames_at_their_limits() {
    assert_eq!(encode_frame(&[]).unwrap(), vec![0, 0, 0, 0]);
    assert_eq!(decode_frame(&[0, 0, 0, 0, 9]).unwrap(), Vec::<u8>::new());
    assert_eq!(encode_frame(&[7; 258]).unwrap()[..5], [2, 1, 0, 0, 7]);
    let big = vec![1u8; MAX_FRAME];
    let frame = encode_frame(&big).unwrap();
    assert_eq!(decode_frame(&frame).unwrap(), big);
    for cut in [0, 3, 4, 1000, frame.len() - 1] {
        assert!(matches!(decode_frame(&frame[..cut]), Err(FrameError::Truncated)));
    }
    match encode_frame(&vec![1u8; MAX_FRAME + 1]) {
        Err(FrameError::TooLarge(n)) => assert_eq!(n, 1_048_577),
        other => panic!("{other:?}"),
    }
    assert!(matches!(body_len(&[0, 0, 16, 0]), Ok(1_048_576)));
    assert!(matches!(body_len(&[1, 0, 16, 0]), Err(FrameError::TooLarge(1_048_577))));
    assert!(matches!(body_len(&[255, 255, 255, 255]), Err(FrameError::TooLarge(4_294_967_295))));
}

#[test]
fn frame_errors_in_words() {
    assert_eq!(
        FrameError::TooLarge(1_048_577).message(),
        "frame body of 1048577 bytes exceeds MAX_FRAME (1048576)"
    );
    assert_eq!(FrameError::Truncated.message(), "connection closed mid-frame");
    assert_eq!(FrameError::Json("x".into()).message(), "json error: x");
    assert_eq!(FrameError::Io("y".into()).message(), "io error: y");
}

// ---- values and signals ------------------------------------------------------------------

#[test]
fn wire_mapping() {
    assert_eq!(wire_to_value(&WireValue::Text("x".into())), Value::Text("x".into()));
    assert_eq!(wire_to_value(&WireValue::Float(number(0.5))), Value::Float(number(0.5)));
    assert_eq!(wire_to_value(&WireValue::Bool(true)), Value::Bool(true));
}

#[test]
fn dbus_keys_round_trip() {
    for id in [0, 1, 9, 10, 4_294_967_295] {
        assert_eq!(fd_key(id), format!("freedesktop:{id}"));
        assert_eq!(fd_id(&Some(fd_key(id))), Some(id));
    }
    assert_eq!(fd_id(&None), None);
    assert_eq!(fd_id(&Some("mpris:single".into())), None);
    assert_eq!(fd_id(&Some("freedesktop:".into())), None);
    assert_eq!(fd_id(&Some("freedesktop:4294967296".into())), None);
    assert_eq!(fd_id(&Some("freedesktop:+5".into())), Some(5));
    assert_eq!(fd_id(&Some("freedesktop:-5".into())), None);
    assert_eq!(fd_id(&Some("freedesktop:007".into())), Some(7));
}

#[test]
fn outbound_events_are_forwarded() {
    assert!(matches!(
        forward(OutboundEvent::Closed { id: 5, reason: 2 }),
        FdSignal::Closed { id: 5, reason: 2 }
    ));
    assert!(matches!(
        forward(OutboundEvent::ActionInvoked { id: 0x1_0000_0003, action_key: "open".into() }),
        FdSignal::ActionInvoked { id: 3, action_key } if action_key == "open"
    ));
}

// ---- the socket --------------------------------------------------------------------------

#[test]
fn requests_become_actions() {
    assert!(matches!(action(Request::Ping), Action::Answer(Response::Pong)));
    assert!(matches!(
        action(Request::Close { replace_key: "k".into() }),
        Action::Close { replace_key } if replace_key == "k"
    ));
    let mut fields = NameMap::new();
    fields.insert("title".to_string(), WireValue::Text("Price drop!".into()));
    let req = Request::Post { kind: Some("deal".into()), replace_key: Some("k".into()), fields };
    match action(req) {
        Action::Post(raw) => {
            assert_eq!(raw.source, SourceKind::Ipc);
            assert_eq!(raw.app_name, "ipc");
            assert_eq!(raw.requested_type.as_deref(), Some("deal"));
            assert_eq!(raw.replace_key.as_deref(), Some("k"));
            assert_eq!(raw.fields.get("title"), Some(&Value::Text("Price drop!".into())));
        }
        other => panic!("{other:?}"),
    }
}

#[test]
fn outcomes_become_responses() {
    assert!(matches!(post_response(Outcome::Accepted(42)), Response::Done { id: 42 }));
    let said = |r: Response| match r {
        Response::Error { message } => message,
        other => panic!("{other:?}"),
    };
    assert_eq!(said(post_response(Outcome::Rejected("no".into()))), "no");
    assert_eq!(said(post_response(Outcome::Closed)), "daemon pipeline closed");
    assert_eq!(said(post_response(Outcome::NoReply)), "no reply from pipeline");
    assert!(matches!(close_response(true), Response::Done { id: 0 }));
    assert_eq!(said(close_response(false)), "daemon pipeline closed");
    assert_eq!(said(frame_response(&FrameError::Truncated)), "connection closed mid-frame");
}

// ---- the command line --------------------------------------------------------------------

#[test]
fn values_are_inferred() {
    let t = readings(&["1.5", "inf"]);
    assert!(matches!(infer_value("1.5", &t), WireValue::Float(n) if n == number(1.5)));
    assert!(matches!(infer_value("inf", &t), WireValue::Float(_)));
    assert!(matches!(infer_value("true", &t), WireValue::Bool(true)));
    assert!(matches!(infer_value("false", &t), WireValue::Bool(false)));
    assert!(matches!(infer_value("True", &t), WireValue::Text(s) if s == "True"));
}

#[test]
fn posts_are_parsed() {
    let a = args(&["--type", "deal", "--field", "title=Price drop", "--field", "a=b=c", "--replace-key", "k"]);
    match parse_post(&a, &readings(&[])) {
        Ok(Request::Post { kind, replace_key, fields }) => {
            assert_eq!(kind.as_deref(), Some("deal"));
            assert_eq!(replace_key.as_deref(), Some("k"));
            assert_eq!(fields.len(), 2);
            assert!(matches!(fields.get("title"), Some(WireValue::Text(s)) if s == "Price drop"));
            assert!(matches!(fields.get("a"), Some(WireValue::Text(s)) if s == "b=c"));
        }
        other => panic!("{other:?}"),
    }
}

#[test]
fn wrong_arguments_are_named() {
    let t = readings(&[]);
    let err = |list: &[&str]| parse_post(&args(list), &t).unwrap_err();
    assert_eq!(err(&["--field", "novalue"]), "--field expects k=v, got 'novalue'");
    assert_eq!(err(&["--field"]), "--field requires a value");
    assert_eq!(err(&["--type"]), "--type requires a value");
    assert_eq!(err(&["--replace-key"]), "--replace-key requires a value");
    assert_eq!(err(&["x"]), "unexpected argument to post: 'x'");
    let close = |list: &[&str]| parse_close(&args(list)).unwrap_err();
    assert_eq!(close(&[]), "close requires --replace-key");
    assert_eq!(close(&["--replace-key"]), "--replace-key requires a value");
    assert_eq!(close(&["y"]), "unexpected argument to close: 'y'");
    assert!(matches!(
        parse_close(&args(&["--replace-key", "a", "--replace-key", "b"])),
        Ok(Request::Close { replace_key }) if replace_key == "b"
    ));
}

#[test]
fn commands_are_told_apart() {
    let t = readings(&[]);
    let run = |list: &[&str]| parse_command(&args(list), &t);
    assert!(matches!(run(&[]), Command::Help));
    assert!(matches!(run(&["-h"]), Command::Help));
    assert!(matches!(run(&["--help", "x"]), Command::Help));
    assert!(matches!(run(&["ping", "x"]), Command::Send(Request::Ping)));
    assert!(matches!(run(&["post"]), Command::Send(Request::Post { .. })));
    assert!(matches!(run(&["close"]), Command::Invalid(m) if m == "close requires --replace-key"));
    assert!(matches!(run(&["open"]), Command::Unknown(c) if c == "open"));
}

#[test]
fn values_to_read_are_listed() {
    let a = args(&["post", "--field", "n=2.5", "--field", "m=x=y"]);
    assert_eq!(value_texts(&a), args(&["2.5", "x=y"]));
    let t = readings(&["2.5", "x=y"]);
    match parse_command(&a, &t) {
        Command::Send(Request::Post { fields, .. }) => {
            assert!(matches!(fields.get("n"), Some(WireValue::Float(n)) if *n == number(2.5)));
            assert!(matches!(fields.get("m"), Some(WireValue::Text(s)) if s == "x=y"));
        }
        other => panic!("{other:?}"),
    }
}

#[test]
fn replies_are_reported() {
    assert_eq!(report(&Response::Done { id: 120 }), ("ok (id 120)".to_string(), false));
    assert_eq!(report(&Response::Pong), ("pong".to_string(), false));
    assert_eq!(
        report(&Response::Error { message: "bad".into() }),
        ("error: bad".to_string(), true)
    );
    assert_eq!(socket_path(Some("/run/user/1")), "/run/user/1/dynamicnoti.sock");
    assert_eq!(socket_path(None), "/tmp/dynamicnoti.sock");
}

// ---- the watcher -------------------------------------------------------------------------

fn changed(path: &str) -> Changed {
    let parts: Vec<String> = path.split('/').filter(|p| !p.is_empty()).map(str::to_string).collect();
    Changed { file_name: parts.last().cloned(), components: parts }
}

#[test]
fn classify_paths() {
    assert_eq!(classify(&changed("/c/config.toml")), Some(Reloaded::Config));
    assert_eq!(classify(&changed("/c/theme.toml")), Some(Reloaded::Theme));
    assert_eq!(classify(&changed("/c/types/song.toml")), Some(Reloaded::Types));
    assert_eq!(classify(&changed("/c/notes.md")), None);
}

#[test]
fn bursts_name_each_artifact_once() {
    let paths = vec![
        changed("/c/types/a.toml"),
        changed("/c/theme.toml"),
        changed("/c/x"),
        changed("/c/types/b.toml"),
        changed("/c/config.toml"),
    ];
    assert_eq!(affected(&paths), vec![Reloaded::Config, Reloaded::Theme, Reloaded::Types]);
    assert_eq!(affected(&vec![changed("/c/x")]), vec![]);
    assert_eq!(classify(&Changed { file_name: None, components: vec!["types".into()] }), None);
}
