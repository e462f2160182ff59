use spur::demo::{api1_answer, api2_answer, combined_answer, worker_to_restart, Watched};
use spur::miohttp::connection::{EventSet, IoDone, ReadOutcome, WriteOutcome};
use spur::prototype::{Connection, ConnectionMode, Registration};

fn readable() -> EventSet {
    EventSet { readable: true, writable: false, error: false, hup: false }
}

fn writable() -> EventSet {
    EventSet { readable: false, writable: true, error: false, hup: false }
}

#[test]
fn greeting_then_close() {
    let conn = Connection::new("sock");
    assert!(!conn.1);
    let (conn, done, reg) = conn.ready_at(readable(), IoDone::Read(ReadOutcome::Data(b"GET / HTTP/1.1\r\n\r\n".to_vec())), 12, -5);
    assert!(!done);
    assert_eq!(reg, Registration::Reregister { readable: false, writable: true });
    let expected = "HTTP/1.1 200 OK\r\nDate: Thu, 20 Dec 2001 12:04:30 GMT \r\nContent-Type: text/html; charset=utf-8\r\n\r\nHello user: 12 - -5";
    match &conn.2 {
        ConnectionMode::DataToSendUser(bytes, 0) => assert_eq!(bytes, &expected.as_bytes().to_vec()),
        _ => panic!("expected the greeting"),
    }
    let n = expected.len();
    let (conn, done, reg) = conn.ready(writable(), IoDone::Write(WriteOutcome::Written(n)));
    assert!(done);
    assert_eq!(reg, Registration::Deregister);
    assert!(matches!(conn.2, ConnectionMode::Close));
    assert_eq!(conn.0, "sock");
}

#[test]
fn hangup_closes() {
    let conn = Connection::new(1u8);
    let hup = EventSet { readable: false, writable: false, error: false, hup: true };
    let (conn, done, _) = conn.ready(hup, IoDone::Nothing);
    assert!(done);
    assert!(matches!(conn.2, ConnectionMode::Close));
}

#[test]
fn partial_head_keeps_reading() {
    let conn = Connection::new(());
    let (conn, done, reg) = conn.ready(readable(), IoDone::Read(ReadOutcome::WouldBlock));
    assert!(!done);
    assert_eq!(reg, Registration::Reregister { readable: true, writable: false });
    assert!(matches!(conn.2, ConnectionMode::WaitingForDataUser(_, 0)));
}

#[test]
fn combined_answer_of_the_demo() {
    let r1 = api1_answer(50);
    let r2 = api2_answer(50);
    assert_eq!((r1, r2), (827, 200));
    assert_eq!(combined_answer(r1, r2), 82700200);
    assert_eq!(worker_to_restart("watek_pierwszy"), Some(Watched::First));
    assert_eq!(worker_to_restart("watek_drugi"), Some(Watched::Second));
    assert_eq!(worker_to_restart("inny"), None);
}

#[test]
fn greeting_carries_the_current_time() {
    let conn = Connection::new(());
    let (conn, _, _) = conn.ready(readable(), IoDone::Read(ReadOutcome::Data(b"GET / HTTP/1.1\r\n\r\n".to_vec())));
    let prefix = "HTTP/1.1 200 OK\r\nDate: Thu, 20 Dec 2001 12:04:30 GMT \r\nContent-Type: text/html; charset=utf-8\r\n\r\nHello user: ";
    match &conn.2 {
        ConnectionMode::DataToSendUser(bytes, 0) => {
            let text = String::from_utf8(bytes.clone()).unwrap();
            assert!(text.starts_with(prefix));
            let rest = &text[prefix.len()..];
            let (sec, nsec) = rest.split_once(" - ").unwrap();
            assert!(sec.parse::<i64>().unwrap() > 1_000_000_000);
            let nsec = nsec.parse::<i64>().unwrap();
            assert!((0..1_000_000_000).contains(&nsec));
        }
        _ => panic!("expected the greeting"),
    }
}
