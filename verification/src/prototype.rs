//! The first connection state machine of the server: it reads a request
//! head, answers every complete head with a greeting that carries the
//! time, and closes the connection once the greeting is sent.
//!
//! As in `miohttp::connection`, the caller performs the socket's I/O and
//! the registration changes returned here.

use vstd::prelude::*;
use vstd::utf8::encode_utf8;
use crate::miohttp::parser::{parse_request, ParseStatus, SpecParseStatus, httparse_request};
use crate::miohttp::connection::{EventSet, ReadOutcome, WriteOutcome, IoDone, after_read, READ_BUFFER_SIZE,
    MAX_HEADERS, empty_buffer};
use crate::text::{signed_decimal, i64_to_decimal};

verus! {

/// The state of a connection.
pub enum ConnectionMode {
    /// Reading a request head: the buffer and how much of it is filled.
    WaitingForDataUser(Vec<u8>, usize),
    /// Waiting for data from the server.
    WaitingForDataServer,
    /// Sending an answer: the bytes and how many are sent.
    DataToSendUser(Vec<u8>, usize),
    Close,
}

pub enum ModeView {
    WaitingForDataUser(Seq<u8>, nat),
    WaitingForDataServer,
    DataToSendUser(Seq<u8>, nat),
    Close,
}

impl View for ConnectionMode {
    type V = ModeView;

    open spec fn view(&self) -> ModeView {
        match self {
            ConnectionMode::WaitingForDataUser(b, d) => ModeView::WaitingForDataUser(b@, *d as nat),
            ConnectionMode::WaitingForDataServer => ModeView::WaitingForDataServer,
            ConnectionMode::DataToSendUser(b, d) => ModeView::DataToSendUser(b@, *d as nat),
            ConnectionMode::Close => ModeView::Close,
        }
    }
}

/// The registration a connection's socket is to have after a step.
#[derive(Debug, Clone, Copy, PartialEq, Eq, Structural)]
pub enum Registration {
    /// Reregister for errors and hang-ups, and for reading or writing as flagged.
    Reregister { readable: bool, writable: bool },
    /// Remove the socket from the event loop.
    Deregister,
}

/// The greeting that answers a complete request head at the given time.
pub open spec fn greeting(sec: i64, nsec: i32) -> Seq<char> {
    "HTTP/1.1 200 OK\r\nDate: Thu, 20 Dec 2001 12:04:30 GMT \r\nContent-Type: text/html; charset=utf-8\r\n\r\nHello user: "@
        + signed_decimal(sec as int) + " - "@ + signed_decimal(nsec as int)
}

/// One step of a connection on an event, with the I/O performed and the
/// time of day: the new state and whether the connection is finished.
pub open spec fn transform_step(mode: ModeView, events: EventSet, io: IoDone, sec: i64, nsec: i32) -> (ModeView, bool) {
    match mode {
        ModeView::WaitingForDataUser(buf, done) => match io {
            IoDone::Read(ReadOutcome::Data(d)) => if events.readable && d@.len() > 0 {
                let nb = after_read(buf, done, d@);
                if httparse_request(nb, MAX_HEADERS as nat) is Complete {
                    (ModeView::DataToSendUser(encode_utf8(greeting(sec, nsec)), 0), false)
                } else {
                    (ModeView::WaitingForDataUser(nb, done + d@.len()), false)
                }
            } else {
                (mode, false)
            },
            _ => (mode, false),
        },
        ModeView::DataToSendUser(data, done) => match io {
            IoDone::Write(WriteOutcome::Written(n)) => if events.writable && n > 0 {
                (ModeView::Close, true)
            } else {
                (mode, false)
            },
            _ => (mode, false),
        },
        _ => (mode, false),
    }
}

/// The registration for the state a step ends in.
pub open spec fn registration_of(mode: ModeView) -> Registration {
    match mode {
        ModeView::WaitingForDataUser(_, _) => Registration::Reregister { readable: true, writable: false },
        ModeView::WaitingForDataServer => Registration::Reregister { readable: false, writable: false },
        ModeView::DataToSendUser(_, _) => Registration::Reregister { readable: false, writable: true },
        ModeView::Close => Registration::Deregister,
    }
}

/// A step on an event followed by the registration for the new state;
/// a hang-up closes and finishes the connection.
pub open spec fn ready_step(mode: ModeView, events: EventSet, io: IoDone, sec: i64, nsec: i32) -> (ModeView, bool, Registration) {
    let (m, finished) = transform_step(mode, events, io, sec, nsec);
    if events.hup {
        (ModeView::Close, true, registration_of(m))
    } else {
        (m, finished, registration_of(m))
    }
}

/// Calls `time::get_time`: the seconds and nanoseconds since the epoch.
/// `Timespec::new` in the crate's source asserts that the nanoseconds lie
/// in `0..1_000_000_000`; the time itself is not stated.
#[verifier::external_body]
fn get_time() -> (r: (i64, i32))
    ensures
        0 <= r.1 < 1_000_000_000,
{
    let t = time::get_time();
    (t.sec, t.nsec)
}

/// Whether the I/O done for an event fits the state: reads fit the free
/// part of the buffer, and a write that sends anything sends all the rest.
pub open spec fn io_fits(mode: ModeView, events: EventSet, io: IoDone) -> bool {
    match mode {
        ModeView::WaitingForDataUser(buf, done) => match io {
            IoDone::Read(ReadOutcome::Data(d)) => done + d@.len() <= buf.len(),
            _ => true,
        },
        ModeView::DataToSendUser(data, done) => match io {
            IoDone::Write(WriteOutcome::Written(n)) => events.writable && n > 0 ==> done + n == data.len(),
            _ => true,
        },
        _ => true,
    }
}

pub open spec fn mode_wf(mode: ModeView) -> bool {
    match mode {
        ModeView::WaitingForDataUser(buf, done) => buf.len() == READ_BUFFER_SIZE && done <= buf.len(),
        ModeView::DataToSendUser(data, done) => done <= data.len(),
        _ => true,
    }
}

/// A connection: the socket, whether to keep it alive, and its state.
pub struct Connection<S>(pub S, pub bool, pub ConnectionMode);

fn greeting_bytes(sec: i64, nsec: i32) -> (b: Vec<u8>)
    ensures
        b@ == encode_utf8(greeting(sec, nsec)),
{
    let mut text = String::from_str(
        "HTTP/1.1 200 OK\r\nDate: Thu, 20 Dec 2001 12:04:30 GMT \r\nContent-Type: text/html; charset=utf-8\r\n\r\nHello user: ",
    );
    text.append(i64_to_decimal(sec).as_str());
    text.append(" - ");
    text.append(i64_to_decimal(nsec as i64).as_str());
    vstd::slice::slice_to_vec(text.as_str().as_bytes())
}

fn write_at(buf: &mut Vec<u8>, done: usize, data: &Vec<u8>)
    requires
        done + data@.len() <= old(buf)@.len(),
    ensures
        final(buf)@ == after_read(old(buf)@, done as nat, data@),
{
    let n = buf.len();
    let mut i: usize = 0;
    while i < data.len()
        invariant
            n == old(buf)@.len(),
            done + data@.len() <= old(buf)@.len(),
            buf@.len() == old(buf)@.len(),
            i <= data@.len(),
            forall|k: int| 0 <= k < done ==> buf@[k] == old(buf)@[k],
            forall|k: int| 0 <= k < i ==> buf@[done + k] == data@[k],
            forall|k: int| done + i <= k < buf@.len() ==> buf@[k] == old(buf)@[k],
        decreases data@.len() - i,
    {
        buf.set(done + i, data[i]);
        i = i + 1;
    }
    assert(buf@ =~= after_read(old(buf)@, done as nat, data@));
}

impl<S> Connection<S> {
    pub open spec fn wf(&self) -> bool {
        mode_wf(self.2@)
    }

    /// A new connection reading its first request head.
    pub fn new(stream: S) -> (r: Connection<S>)
        ensures
            r.0 == stream,
            !r.1,
            r.2@ == ModeView::WaitingForDataUser(empty_buffer(), 0),
            r.wf(),
    {
        let mut buf: Vec<u8> = Vec::new();
        let mut i: usize = 0;
        while i < READ_BUFFER_SIZE
            invariant
                i <= READ_BUFFER_SIZE,
                buf@ == Seq::new(i as nat, |k: int| 0u8),
            decreases READ_BUFFER_SIZE - i,
        {
            buf.push(0u8);
            i = i + 1;
            assert(buf@ =~= Seq::new(i as nat, |k: int| 0u8));
        }
        Connection(stream, false, ConnectionMode::WaitingForDataUser(buf, 0))
    }

    /// One step on an event, at the time of day given: the state moves on
    /// with the I/O performed; then the socket's registration follows the
    /// new state, and a hang-up closes the connection. The flag tells
    /// whether the connection is finished.
    pub fn ready_at(self, events: EventSet, io: IoDone, sec: i64, nsec: i32) -> (r: (Connection<S>, bool, Registration))
        requires
            self.wf(),
            io_fits(self.2@, events, io),
        ensures
            r.0.0 == self.0,
            r.0.1 == self.1,
            r.0.wf(),
            (r.0.2@, r.1, r.2) == ready_step(self.2@, events, io, sec, nsec),
    {
        let (new_connection, is_close) = self.transform(events, io, sec, nsec);
        let registration = new_connection.set_events();
        if events.hup {
            let Connection(stream, keep_alive, _) = new_connection;
            return (Connection(stream, keep_alive, ConnectionMode::Close), true, registration);
        }
        (new_connection, is_close, registration)
    }

    /// One step on an event, at the current time of day (see `ready_at`).
    pub fn ready(self, events: EventSet, io: IoDone) -> (r: (Connection<S>, bool, Registration))
        requires
            self.wf(),
            io_fits(self.2@, events, io),
        ensures
            r.0.0 == self.0,
            r.0.1 == self.1,
            r.0.wf(),
            exists|sec: i64, nsec: i32| 0 <= nsec < 1_000_000_000
                && (r.0.2@, r.1, r.2) == #[trigger] ready_step(self.2@, events, io, sec, nsec),
    {
        let (sec, nsec) = get_time();
        self.ready_at(events, io, sec, nsec)
    }

    /// The registration that the state asks for.
    fn set_events(&self) -> (r: Registration)
        ensures
            r == registration_of(self.2@),
    {
        match self.2 {
            ConnectionMode::WaitingForDataUser(_, _) => Registration::Reregister { readable: true, writable: false },
            ConnectionMode::WaitingForDataServer => Registration::Reregister { readable: false, writable: false },
            ConnectionMode::DataToSendUser(_, _) => Registration::Reregister { readable: false, writable: true },
            ConnectionMode::Close => Registration::Deregister,
        }
    }

    fn transform(self, events: EventSet, io: IoDone, sec: i64, nsec: i32) -> (r: (Connection<S>, bool))
        requires
            self.wf(),
            io_fits(self.2@, events, io),
        ensures
            r.0.0 == self.0,
            r.0.1 == self.1,
            r.0.wf(),
            (r.0.2@, r.1) == transform_step(self.2@, events, io, sec, nsec),
    {
        match self {
            Connection(stream, keep_alive, ConnectionMode::WaitingForDataUser(buf, done)) => {
                if events.readable {
                    match io {
                        IoDone::Read(ReadOutcome::Data(data)) => {
                            if data.len() > 0 {
                                let mut buf = buf;
                                write_at(&mut buf, done, &data);
                                let done = done + data.len();
                                match parse_request(buf.as_slice(), MAX_HEADERS) {
                                    ParseStatus::Complete(_, _) => {
                                        let response = greeting_bytes(sec, nsec);
                                        return (Connection(stream, keep_alive, ConnectionMode::DataToSendUser(response, 0)), false);
                                    },
                                    _ => {},
                                }
                                return (Connection(stream, keep_alive, ConnectionMode::WaitingForDataUser(buf, done)), false);
                            }
                            (Connection(stream, keep_alive, ConnectionMode::WaitingForDataUser(buf, done)), false)
                        },
                        _ => (Connection(stream, keep_alive, ConnectionMode::WaitingForDataUser(buf, done)), false),
                    }
                } else {
                    (Connection(stream, keep_alive, ConnectionMode::WaitingForDataUser(buf, done)), false)
                }
            },
            Connection(stream, keep_alive, ConnectionMode::WaitingForDataServer) => {
                (Connection(stream, keep_alive, ConnectionMode::WaitingForDataServer), false)
            },
            Connection(stream, keep_alive, ConnectionMode::DataToSendUser(data, done)) => {
                if events.writable {
                    match io {
                        IoDone::Write(WriteOutcome::Written(size)) => {
                            if size > 0 {
                                return (Connection(stream, keep_alive, ConnectionMode::Close), true);
                            }
                        },
                        _ => {},
                    }
                }
                (Connection(stream, keep_alive, ConnectionMode::DataToSendUser(data, done)), false)
            },
            Connection(stream, keep_alive, ConnectionMode::Close) => {
                (Connection(stream, keep_alive, ConnectionMode::Close), false)
            },
        }
    }
}

/// A closed connection stays closed and is removed from the event loop.
pub proof fn lemma_closed_stays_closed(events: EventSet, io: IoDone, sec: i64, nsec: i32)
    ensures
        transform_step(ModeView::Close, events, io, sec, nsec) == (ModeView::Close, false),
        registration_of(ModeView::Close) == Registration::Deregister,
{
}

/// A connection whose buffer completes a request head answers it with
/// the greeting for the time of that step, and the first write that sends
/// anything of the greeting finishes and closes the connection.
pub proof fn lemma_greeting_then_close(buf: Seq<u8>, done: nat, events: EventSet, d: Vec<u8>, sec: i64, nsec: i32,
    events2: EventSet, n: usize, sec2: i64, nsec2: i32)
    requires
        events.readable,
        d@.len() > 0,
        httparse_request(after_read(buf, done, d@), MAX_HEADERS as nat) is Complete,
        events2.writable,
        n > 0,
    ensures
        transform_step(ModeView::WaitingForDataUser(buf, done), events, IoDone::Read(ReadOutcome::Data(d)), sec, nsec)
            == (ModeView::DataToSendUser(encode_utf8(greeting(sec, nsec)), 0), false),
        transform_step(ModeView::DataToSendUser(encode_utf8(greeting(sec, nsec)), 0), events2,
            IoDone::Write(WriteOutcome::Written(n)), sec2, nsec2) == (ModeView::Close, true),
{
}

} // verus!
