use spur::miohttp::connection::parsed_step;
use spur::miohttp::parser::ParseStatus;
use spur::miohttp::server::{socket_step, SocketStep};
use spur::miohttp::connection::{
    Connection, EventSet, IoDone, IoRequest, ReadOutcome, TimerMode, WriteOutcome, READ_BUFFER_SIZE,
};
use spur::miohttp::parser::{RawHeader, RawRequest};
use spur::miohttp::request::PreRequest;
use spur::miohttp::response::{Code, Response, Type};
use spur::miohttp::server::{event_change, interest_to_string, set_event, timer_message, Event, Interest, MyHandler, Registration, TimerAction};
use spur::miohttp::token_gen::TokenGen;

fn readable() -> EventSet {
    EventSet { readable: true, writable: false, error: false, hup: false }
}

fn writable() -> EventSet {
    EventSet { readable: false, writable: true, error: false, hup: false }
}

fn data(bytes: &[u8]) -> IoDone {
    IoDone::Read(ReadOutcome::Data(bytes.to_vec()))
}

fn raw(headers: Vec<(&str, &[u8])>) -> RawRequest {
    RawRequest {
        method: Some("GET".to_string()),
        path: Some("/".to_string()),
        version: Some(1),
        headers: headers.into_iter().map(|(n, v)| RawHeader { name: n.to_string(), value: v.to_vec() }).collect(),
    }
}

#[test]
fn pre_request_errors() {
    let missing = RawRequest { method: None, path: Some("/".to_string()), version: Some(1), headers: vec![] };
    assert_eq!(PreRequest::new(missing).err().unwrap(), "Błąd tworzenia odpowiedzi");
    let double = raw(vec![("A", b"1"), ("B", b"2"), ("A", b"3")]);
    assert_eq!(PreRequest::new(double).err().unwrap(), "double header: A");
    let bad = raw(vec![("A", b"1"), ("Bad", &[0xff, 0xfe])]);
    assert!(PreRequest::new(bad).err().unwrap().starts_with("header Bad, error utf8 sequence: "));
}

#[test]
fn header_value_is_compared_trimmed() {
    let req = PreRequest::new(raw(vec![("Connection", b"keep-alive")])).unwrap().bind(9);
    assert!(req.is_header_set("Connection", "  keep-alive "));
    assert!(!req.is_header_set("Connection", "close"));
    assert!(!req.is_header_set("Host", "keep-alive"));
    assert_eq!(req.token(), 9);
    assert_eq!(req.method, "GET");
    assert_eq!(req.path, "/");
}

#[test]
fn response_text_layout() {
    let r = Response::create(Code::Code404, Type::Html, "no".to_string());
    assert_eq!(
        r.message,
        "HTTP/1.1 404 Not Found\r\nDate: Thu, 20 Dec 2001 12:04:30 GMT\r\nContent-Type: text/html; charset=utf-8\r\nConnection: keep-alive\r\nContent-length: 2\r\n\r\nno"
    );
    assert_eq!(r.as_bytes(), r.message.as_bytes());
    assert_eq!(Response::from_string("x".to_string()).message, "x");
}

#[test]
fn keep_alive_round_trip() {
    let conn: Connection<u32> = Connection::new(5);
    assert_eq!(conn.get_name(), "ReadingRequest");
    assert_eq!(conn.get_event(), Event::Read);
    assert_eq!(conn.get_timer_mode(), TimerMode::In);
    match conn.io_request(&readable()) {
        IoRequest::Read(n) => assert_eq!(n, READ_BUFFER_SIZE),
        _ => panic!("expected a read"),
    }
    let (conn, req) = conn.ready(readable(), data(b"GET / HTTP/1.1\r\nConnection: keep-alive\r\n\r\n"), 1);
    let req = req.expect("a request");
    assert_eq!(req.token(), 1);
    assert!(req.is_header_set("Connection", "keep-alive"));
    assert_eq!(conn.get_name(), "WaitingForServerResponse");
    assert_eq!(conn.get_event(), Event::Idle);
    assert_eq!(conn.get_timer_mode(), TimerMode::Idle);
    // readiness does not move a waiting connection
    let (conn, req) = conn.ready(readable(), IoDone::Nothing, 1);
    assert!(req.is_none());
    assert_eq!(conn.get_name(), "WaitingForServerResponse");
    // the answer goes out in two writes
    let answer = Response::create(Code::Code200, Type::Html, "hello".to_string());
    let bytes = answer.as_bytes().to_vec();
    let conn = conn.send_data_to_user(1, answer);
    assert_eq!(conn.get_name(), "SendingResponse");
    assert_eq!(conn.get_timer_mode(), TimerMode::Out);
    match conn.io_request(&writable()) {
        IoRequest::Write(b) => assert_eq!(b, &bytes[..]),
        _ => panic!("expected a write"),
    }
    let (conn, _) = conn.ready(writable(), IoDone::Write(WriteOutcome::Written(10)), 1);
    match conn.io_request(&writable()) {
        IoRequest::Write(b) => assert_eq!(b, &bytes[10..]),
        _ => panic!("expected a write"),
    }
    let rest = bytes.len() - 10;
    let (conn, _) = conn.ready(writable(), IoDone::Write(WriteOutcome::Written(rest)), 1);
    // keep-alive: reading again, from an empty buffer
    assert_eq!(conn.get_name(), "ReadingRequest");
    match conn.io_request(&readable()) {
        IoRequest::Read(n) => assert_eq!(n, READ_BUFFER_SIZE),
        _ => panic!("expected a read"),
    }
}

#[test]
fn without_keep_alive_the_connection_closes() {
    let conn: Connection<()> = Connection::new(());
    let (conn, req) = conn.ready(readable(), data(b"GET / HTTP/1.1\r\n\r\n"), 2);
    assert!(req.is_some());
    let answer = Response::create(Code::Code200, Type::Html, "x".to_string());
    let n = answer.as_bytes().len();
    let conn = conn.send_data_to_user(2, answer);
    let (conn, _) = conn.ready(writable(), IoDone::Write(WriteOutcome::Written(n)), 2);
    assert!(conn.in_state_close());
    assert_eq!(conn.get_name(), "Close");
}

#[test]
fn malformed_head_gets_400_then_closes() {
    let conn: Connection<()> = Connection::new(());
    let (conn, req) = conn.ready(readable(), data(b"\x01\x02 garbage\r\n\r\n"), 3);
    assert!(req.is_none());
    assert_eq!(conn.get_name(), "SendingResponse");
    let expected = spur::asynchttp::response::Response::create_400().into_bytes();
    match conn.io_request(&writable()) {
        IoRequest::Write(b) => assert_eq!(b, &expected[..]),
        _ => panic!("expected a write"),
    }
    let (conn, _) = conn.ready(writable(), IoDone::Write(WriteOutcome::Written(expected.len())), 3);
    assert!(conn.in_state_close());
}

#[test]
fn head_cut_short_is_refused() {
    // the whole buffer is parsed, so the zero bytes after a cut head are
    // read as part of it
    let conn: Connection<()> = Connection::new(());
    let (conn, req) = conn.ready(readable(), data(b"GET / HTTP/1.1\r\nHost: ex"), 5);
    assert!(req.is_none());
    assert_eq!(conn.get_name(), "SendingResponse");
}

#[test]
fn nothing_read_keeps_reading() {
    let conn: Connection<()> = Connection::new(());
    let (conn, req) = conn.ready(readable(), data(b""), 6);
    assert!(req.is_none());
    assert_eq!(conn.get_name(), "ReadingRequest");
    let (conn, _) = conn.ready(readable(), IoDone::Read(ReadOutcome::WouldBlock), 6);
    assert_eq!(conn.get_name(), "ReadingRequest");
}

#[test]
fn error_or_hangup_closes() {
    let conn: Connection<()> = Connection::new(());
    let hup = EventSet { readable: true, writable: false, error: false, hup: true };
    assert!(matches!(conn.io_request(&hup), IoRequest::Nothing));
    let (conn, req) = conn.ready(hup, IoDone::Nothing, 4);
    assert!(req.is_none());
    assert!(conn.in_state_close());
    let err = EventSet { readable: false, writable: false, error: true, hup: false };
    let (conn, _) = conn.ready(err, IoDone::Nothing, 4);
    assert!(conn.in_state_close());
}

#[test]
fn registration_decisions() {
    let read = Interest { readable: true, writable: false, error: true, hup: true };
    let write = Interest { readable: false, writable: true, error: true, hup: true };
    let none = Interest { readable: false, writable: false, error: true, hup: true };
    assert_eq!(set_event(Event::Init, Event::Read), (Registration::Register(read), "register: Readable | Error | Hup".to_string()));
    assert_eq!(set_event(Event::Init, Event::Init), (Registration::Keep, "register: none".to_string()));
    assert_eq!(set_event(Event::Read, Event::Write), (Registration::Reregister(write), "reregister: Writable | Error | Hup".to_string()));
    assert_eq!(set_event(Event::Write, Event::Idle), (Registration::Reregister(none), "reregister: Error | Hup".to_string()));
    assert_eq!(set_event(Event::Read, Event::Init), (Registration::Keep, "reregister: none".to_string()));
}

#[test]
fn handler_table() {
    let mut h: MyHandler<u8, u64> = MyHandler::new(4000, 5000);
    assert!(h.is_server(0));
    assert_eq!(h.count(), 0);
    let t1 = h.new_token();
    let t2 = h.new_token();
    assert_eq!((t1, t2), (1, 2));
    assert!(!h.is_server(t1));
    h.insert_connection(t1, Connection::new(1u8), None);
    h.insert_connection(t2, Connection::new(2u8), Some(77));
    assert_eq!(h.count(), 2);
    let (conn, event, timer) = h.get_connection(t2).unwrap();
    assert_eq!(conn.stream, 2);
    assert_eq!(event, Event::Read);
    assert_eq!(timer, Some(77));
    assert_eq!(h.count(), 1);
    assert!(h.get_connection(t2).is_none());
    h.insert_connection(t2, conn, timer);
    assert_eq!(h.count(), 2);
}

#[test]
fn timer_decisions() {
    let h: MyHandler<u8, u64> = MyHandler::new(4000, 5000);
    assert!(matches!(h.set_timer(None, TimerMode::In), TimerAction::Start(4000)));
    assert!(matches!(h.set_timer(None, TimerMode::Out), TimerAction::Start(5000)));
    assert!(matches!(h.set_timer(None, TimerMode::Idle), TimerAction::Nothing));
    assert!(matches!(h.set_timer(Some(3), TimerMode::In), TimerAction::Keep(3)));
    assert!(matches!(h.set_timer(Some(3), TimerMode::Out), TimerAction::Keep(3)));
    assert!(matches!(h.set_timer(Some(3), TimerMode::Idle), TimerAction::Clear(3)));
}

#[test]
fn tokens_are_handed_out_in_order() {
    let mut g = TokenGen::new();
    assert_eq!(g.get(), 0);
    assert_eq!(g.get(), 1);
    assert_eq!(g.get(), 2);
}

#[test]
fn interest_text_is_as_mio_prints_it() {
    let all = [false, true];
    for &readable in &all {
        for &writable in &all {
            for &error in &all {
                for &hup in &all {
                    let mut set = mio::EventSet::none();
                    if readable { set = set | mio::EventSet::readable(); }
                    if writable { set = set | mio::EventSet::writable(); }
                    if error { set = set | mio::EventSet::error(); }
                    if hup { set = set | mio::EventSet::hup(); }
                    let i = Interest { readable, writable, error, hup };
                    assert_eq!(interest_to_string(i), format!("{:?}", set));
                }
            }
        }
    }
}

#[test]
fn socket_step_closes_or_keeps() {
    let hup = EventSet { readable: true, writable: false, error: false, hup: true };
    match socket_step((Connection::new(1u8), Event::Read, Some(9u64)), hup, IoDone::Nothing, 3) {
        SocketStep::Closed(timer) => assert_eq!(timer, Some(9)),
        _ => panic!("expected the connection to close"),
    }
    let head = IoDone::Read(ReadOutcome::Data(b"GET /x HTTP/1.1\r\n\r\n".to_vec()));
    match socket_step((Connection::new(2u8), Event::Read, Some(4u64)), readable(), head, 3) {
        SocketStep::Open((conn, event, timer), request) => {
            assert_eq!(conn.stream, 2);
            assert_eq!(conn.get_name(), "WaitingForServerResponse");
            assert_eq!(event, Event::Read);
            assert_eq!(timer, Some(4));
            let request = request.expect("a request");
            assert_eq!(request.path, "/x");
            assert_eq!(request.token(), 3);
        }
        _ => panic!("expected the connection to stay"),
    }
}

#[test]
fn parsed_step_on_parser_outcomes() {
    let buf = vec![0u8; READ_BUFFER_SIZE];
    let (conn, req) = parsed_step((), ParseStatus::Partial, buf.clone(), 5, 1);
    assert!(req.is_none());
    assert_eq!(conn.get_name(), "ReadingRequest");
    let (conn, req) = parsed_step((), ParseStatus::Invalid, buf.clone(), 5, 1);
    assert!(req.is_none());
    assert_eq!(conn.get_name(), "SendingResponse");
    let raw = RawRequest {
        method: Some("GET".to_string()),
        path: Some("/a".to_string()),
        version: Some(1),
        headers: vec![RawHeader { name: "Connection".to_string(), value: b"keep-alive".to_vec() }],
    };
    let (conn, req) = parsed_step((), ParseStatus::Complete(40, raw), buf, 40, 8);
    assert_eq!(conn.get_name(), "WaitingForServerResponse");
    assert_eq!(req.unwrap().token(), 8);
}

#[test]
fn token_room_is_reported() {
    let h: MyHandler<u8, u64> = MyHandler::new(1, 1);
    assert!(h.can_issue_token());
}

#[test]
fn event_change_keeps_an_unchanged_event() {
    let read = Interest { readable: true, writable: false, error: true, hup: true };
    assert_eq!(event_change(Event::Read, Event::Read), (Registration::Keep, "none".to_string()));
    assert_eq!(event_change(Event::Init, Event::Init), (Registration::Keep, "none".to_string()));
    assert_eq!(event_change(Event::Init, Event::Read), (Registration::Register(read), "register: Readable | Error | Hup".to_string()));
    assert_eq!(event_change(Event::Read, Event::Init), set_event(Event::Read, Event::Init));
}

#[test]
fn timer_messages() {
    assert_eq!(timer_message(&TimerAction::Keep(5u64), TimerMode::In, true), "keep");
    assert_eq!(timer_message(&TimerAction::Clear(5u64), TimerMode::Idle, true), "clear");
    assert_eq!(timer_message(&TimerAction::<u64>::Nothing, TimerMode::Idle, true), "none");
    assert_eq!(timer_message(&TimerAction::<u64>::Start(4000), TimerMode::In, true), "timer in set");
    assert_eq!(timer_message(&TimerAction::<u64>::Start(5000), TimerMode::Out, true), "timer out set");
    assert_eq!(timer_message(&TimerAction::<u64>::Start(4000), TimerMode::In, false), "timer in error");
    assert_eq!(timer_message(&TimerAction::<u64>::Start(5000), TimerMode::Out, false), "timer out error");
}
