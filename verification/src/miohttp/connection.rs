//! One client connection of the event-loop server, as a state machine:
//! read a request head, wait for the server's answer, send it, then read
//! again (keep-alive) or close.
//!
//! The socket's I/O stays with the caller: `io_request` says what the
//! caller is to read or write for a readiness event, and `ready` takes
//! the event with the outcome of that I/O.

use vstd::prelude::*;
use vstd::utf8::encode_utf8;
use crate::miohttp::parser::{parse_request, ParseStatus, SpecParseStatus, httparse_request};
use crate::miohttp::request::{PreRequest, Request, SpecRequest, SpecRequestHead, raw_accepted,
    accepted_head, header_value};
use crate::miohttp::response;
use crate::miohttp::server::{Event, interest_of};
use crate::asynchttp::response as inline_response;
use crate::text::trimmed;

verus! {

/// The size of the buffer a request head is read into.
pub const READ_BUFFER_SIZE: usize = 2048;

/// The number of headers a request head may have.
pub const MAX_HEADERS: usize = 100;

/// The state of a connection.
pub enum ConnectionMode {
    /// Reading a request: the buffer and how many bytes of it are filled.
    ReadingRequest(Vec<u8>, usize),
    /// Waiting for the server's answer; whether to keep the connection open after it.
    WaitingForServerResponse(bool),
    /// Sending an answer: keep-alive, the bytes, and how many are sent.
    SendingResponse(bool, Vec<u8>, usize),
    /// To be closed.
    Close,
}

pub enum ModeView {
    Reading(Seq<u8>, nat),
    Waiting(bool),
    Sending(bool, Seq<u8>, nat),
    Close,
}

impl View for ConnectionMode {
    type V = ModeView;

    open spec fn view(&self) -> ModeView {
        match self {
            ConnectionMode::ReadingRequest(b, d) => ModeView::Reading(b@, *d as nat),
            ConnectionMode::WaitingForServerResponse(k) => ModeView::Waiting(*k),
            ConnectionMode::SendingResponse(k, b, d) => ModeView::Sending(*k, b@, *d as nat),
            ConnectionMode::Close => ModeView::Close,
        }
    }
}

/// Which timer a connection needs: one for reading, one for writing, none.
#[derive(Debug, Clone, Copy, PartialEq, Eq, Structural)]
pub enum TimerMode {
    In,
    Out,
    Idle,
}

/// The readiness that the event loop reports for a socket.
#[derive(Debug, Clone, Copy, PartialEq, Eq, Structural)]
pub struct EventSet {
    pub readable: bool,
    pub writable: bool,
    pub error: bool,
    pub hup: bool,
}

/// The outcome of a non-blocking read from the socket.
pub enum ReadOutcome {
    /// The bytes read (none at end of stream).
    Data(Vec<u8>),
    /// Nothing to read now.
    WouldBlock,
    /// The read failed.
    Failed,
}

/// The outcome of a non-blocking write to the socket.
#[derive(Debug, Clone, Copy, PartialEq, Eq, Structural)]
pub enum WriteOutcome {
    /// This many bytes were written.
    Written(usize),
    /// The socket takes nothing now.
    WouldBlock,
    /// The write failed.
    Failed,
}

/// The I/O that the caller performed for an event.
pub enum IoDone {
    Nothing,
    Read(ReadOutcome),
    Write(WriteOutcome),
}

/// The I/O that the caller is to perform for an event.
pub enum IoRequest<'a> {
    Nothing,
    /// Read at most this many bytes.
    Read(usize),
    /// Write (a prefix of) these bytes.
    Write(&'a [u8]),
}

/// An empty read buffer.
pub open spec fn empty_buffer() -> Seq<u8> {
    Seq::new(READ_BUFFER_SIZE as nat, |i: int| 0u8)
}

/// The bytes of the answer to a request that could not be read.
pub open spec fn bad_request_bytes() -> Seq<u8> {
    encode_utf8(inline_response::response_text(inline_response::Code::Code400,
        inline_response::Type::TextHtml, "400 Bad Request"@))
}

/// The buffer after `data` was read into it at `done`.
pub open spec fn after_read(buf: Seq<u8>, done: nat, data: Seq<u8>) -> Seq<u8> {
    buf.take(done as int) + data + buf.skip((done + data.len()) as int)
}

/// Whether a request asks to keep the connection open.
pub open spec fn asks_keep_alive(head: SpecRequestHead) -> bool {
    header_value(head.headers, "Connection"@) == Some(trimmed("keep-alive"@))
}

/// What a connection does once its buffer holds `buf`, filled up to `done`:
/// a complete and accepted head becomes a request, and the connection
/// waits for its answer; a complete but refused head, or bytes that no
/// head may hold, are answered with 400 and the connection then closes;
/// an incomplete head is read further.
pub open spec fn after_parse(buf: Seq<u8>, done: nat, token: usize) -> (ModeView, Option<SpecRequest>) {
    after_parsed(httparse_request(buf, MAX_HEADERS as nat), buf, done, token)
}

/// What a connection does with what the parser made of its buffer `buf`,
/// filled up to `done` (see `after_parse`).
pub open spec fn after_parsed(parsed: SpecParseStatus, buf: Seq<u8>, done: nat, token: usize) -> (ModeView, Option<SpecRequest>) {
    match parsed {
        SpecParseStatus::Complete(_, raw) => if raw_accepted(raw) {
            let head = accepted_head(raw);
            (ModeView::Waiting(asks_keep_alive(head)), Some(SpecRequest { head, token }))
        } else {
            (ModeView::Sending(false, bad_request_bytes(), 0), None)
        },
        SpecParseStatus::Partial => (ModeView::Reading(buf, done), None),
        SpecParseStatus::Invalid => (ModeView::Sending(false, bad_request_bytes(), 0), None),
    }
}

/// What a sending connection does after `n` more bytes went out: when all
/// bytes are sent it reads the next request (keep-alive) or closes.
pub open spec fn after_write(keep_alive: bool, data: Seq<u8>, done: nat, n: nat) -> ModeView {
    if n == 0 {
        ModeView::Sending(keep_alive, data, done)
    } else if done + n == data.len() {
        if keep_alive {
            ModeView::Reading(empty_buffer(), 0)
        } else {
            ModeView::Close
        }
    } else {
        ModeView::Sending(keep_alive, data, done + n)
    }
}

/// One step of a connection on a readiness event and the I/O performed
/// for it. An error or hang-up closes the connection.
pub open spec fn step(mode: ModeView, events: EventSet, io: IoDone, token: usize) -> (ModeView, Option<SpecRequest>) {
    if events.error || events.hup {
        (ModeView::Close, None)
    } else {
        match mode {
            ModeView::Reading(buf, done) => match io {
                IoDone::Read(ReadOutcome::Data(d)) => if events.readable && d@.len() > 0 {
                    after_parse(after_read(buf, done, d@), done + d@.len(), token)
                } else {
                    (mode, None)
                },
                _ => (mode, None),
            },
            ModeView::Sending(keep_alive, data, done) => match io {
                IoDone::Write(WriteOutcome::Written(n)) => if events.writable {
                    (after_write(keep_alive, data, done, n as nat), None)
                } else {
                    (mode, None)
                },
                _ => (mode, None),
            },
            _ => (mode, None),
        }
    }
}

/// Whether the I/O done for an event is what `io_request` asked for: on
/// an error or hang-up nothing is asked, and any outcome fits.
pub open spec fn io_fits(mode: ModeView, events: EventSet, io: IoDone) -> bool {
    events.error || events.hup || match mode {
        ModeView::Reading(buf, done) => events.readable ==> match io {
            IoDone::Read(ReadOutcome::Data(d)) => done + d@.len() <= buf.len(),
            IoDone::Read(_) => true,
            _ => false,
        },
        ModeView::Sending(_, data, done) => events.writable ==> match io {
            IoDone::Write(WriteOutcome::Written(n)) => done + n <= data.len(),
            IoDone::Write(_) => true,
            _ => false,
        },
        _ => true,
    }
}

pub open spec fn mode_event(mode: ModeView) -> Event {
    match mode {
        ModeView::Reading(_, _) => Event::Read,
        ModeView::Waiting(_) => Event::Idle,
        ModeView::Sending(_, _, _) => Event::Write,
        ModeView::Close => Event::Idle,
    }
}

pub open spec fn mode_timer(mode: ModeView) -> TimerMode {
    match mode {
        ModeView::Reading(_, _) => TimerMode::In,
        ModeView::Waiting(_) => TimerMode::Idle,
        ModeView::Sending(_, _, _) => TimerMode::Out,
        ModeView::Close => TimerMode::Idle,
    }
}

/// The buffers of a state are in bounds.
pub open spec fn mode_wf(mode: ModeView) -> bool {
    match mode {
        ModeView::Reading(buf, done) => buf.len() == READ_BUFFER_SIZE && done <= buf.len(),
        ModeView::Sending(_, data, done) => done <= data.len(),
        _ => true,
    }
}

/// A client connection: the socket, of whatever type the caller uses, and the state.
pub struct Connection<S> {
    pub stream: S,
    mode: ConnectionMode,
}

fn zero_buffer() -> (v: Vec<u8>)
    ensures
        v@ == empty_buffer(),
{
    let mut v: Vec<u8> = Vec::new();
    let mut i: usize = 0;
    while i < READ_BUFFER_SIZE
        invariant
            i <= READ_BUFFER_SIZE,
            v@ == Seq::new(i as nat, |k: int| 0u8),
        decreases READ_BUFFER_SIZE - i,
    {
        v.push(0u8);
        i = i + 1;
        assert(v@ =~= Seq::new(i as nat, |k: int| 0u8));
    }
    v
}

/// Writes `data` into `buf` from position `done` on.
fn write_at(buf: &mut Vec<u8>, done: usize, data: &Vec<u8>)
    requires
        done + data@.len() <= old(buf)@.len(),
    ensures
        final(buf)@ == after_read(old(buf)@, done as nat, data@),
{
    let n = buf.len();
    let mut i: usize = 0;
    while i < data.len()
        invariant
            n == old(buf)@.len(),
            done + data@.len() <= old(buf)@.len(),
            buf@.len() == old(buf)@.len(),
            i <= data@.len(),
            forall|k: int| 0 <= k < done ==> buf@[k] == old(buf)@[k],
            forall|k: int| 0 <= k < i ==> buf@[done + k] == data@[k],
            forall|k: int| done + i <= k < buf@.len() ==> buf@[k] == old(buf)@[k],
        decreases data@.len() - i,
    {
        buf.set(done + i, data[i]);
        i = i + 1;
    }
    assert(buf@ =~= after_read(old(buf)@, done as nat, data@));
}

impl<S> Connection<S> {
    /// The socket of the connection.
    pub closed spec fn socket(&self) -> S {
        self.stream
    }

    pub closed spec fn mode_view(&self) -> ModeView {
        self.mode@
    }

    pub open spec fn wf(&self) -> bool {
        mode_wf(self.mode_view())
    }

    /// A new connection, reading its first request into an empty buffer.
    pub fn new(stream: S) -> (r: Connection<S>)
        ensures
            r.socket() == stream,
            r.mode_view() == ModeView::Reading(empty_buffer(), 0),
            r.wf(),
    {
        Connection { stream, mode: ConnectionMode::ReadingRequest(zero_buffer(), 0) }
    }

    fn make(stream: S, mode: ConnectionMode) -> (r: Connection<S>)
        ensures
            r.socket() == stream,
            r.mode_view() == mode@,
    {
        Connection { stream, mode }
    }

    fn replace_mode(self, mode: ConnectionMode) -> (r: Connection<S>)
        ensures
            r.socket() == self.socket(),
            r.mode_view() == mode@,
    {
        Connection { stream: self.stream, mode }
    }

    pub fn in_state_close(&self) -> (r: bool)
        ensures
            r == (self.mode_view() is Close),
    {
        match self.mode {
            ConnectionMode::Close => true,
            _ => false,
        }
    }

    /// Hands the server's answer to a connection that waits for it; a
    /// connection in any other state ignores it.
    pub fn send_data_to_user(self, token: usize, response: response::Response) -> (r: Connection<S>)
        requires
            self.wf(),
        ensures
            r.socket() == self.socket(),
            r.wf(),
            self.mode_view() matches ModeView::Waiting(keep_alive) ==> r.mode_view()
                == ModeView::Sending(keep_alive, encode_utf8(response.message@), 0),
            !(self.mode_view() is Waiting) ==> r.mode_view() == self.mode_view(),
    {
        let bytes = vstd::slice::slice_to_vec(response.as_bytes());
        self.send_bytes_to_user(token, bytes)
    }

    /// Hands the bytes of the server's answer to a connection that waits
    /// for it; a connection in any other state ignores them.
    pub fn send_bytes_to_user(self, token: usize, bytes: Vec<u8>) -> (r: Connection<S>)
        requires
            self.wf(),
        ensures
            r.socket() == self.socket(),
            r.wf(),
            self.mode_view() matches ModeView::Waiting(keep_alive) ==> r.mode_view()
                == ModeView::Sending(keep_alive, bytes@, 0),
            !(self.mode_view() is Waiting) ==> r.mode_view() == self.mode_view(),
    {
        match self.mode {
            ConnectionMode::WaitingForServerResponse(keep_alive) => {
                self.replace_mode(ConnectionMode::SendingResponse(keep_alive, bytes, 0))
            },
            _ => self,
        }
    }

    /// The readiness the socket is to be registered for.
    pub fn get_event(&self) -> (r: Event)
        ensures
            r == mode_event(self.mode_view()),
    {
        match self.mode {
            ConnectionMode::ReadingRequest(_, _) => Event::Read,
            ConnectionMode::WaitingForServerResponse(_) => Event::Idle,
            ConnectionMode::SendingResponse(_, _, _) => Event::Write,
            ConnectionMode::Close => Event::Idle,
        }
    }

    /// The timer the connection needs.
    pub fn get_timer_mode(&self) -> (r: TimerMode)
        ensures
            r == mode_timer(self.mode_view()),
    {
        match self.mode {
            ConnectionMode::ReadingRequest(_, _) => TimerMode::In,
            ConnectionMode::WaitingForServerResponse(_) => TimerMode::Idle,
            ConnectionMode::SendingResponse(_, _, _) => TimerMode::Out,
            ConnectionMode::Close => TimerMode::Idle,
        }
    }

    /// The name of the state, for the log.
    pub fn get_name(&self) -> (r: &str)
        ensures
            self.mode_view() is Reading ==> r@ == "ReadingRequest"@,
            self.mode_view() is Waiting ==> r@ == "WaitingForServerResponse"@,
            self.mode_view() is Sending ==> r@ == "SendingResponse"@,
            self.mode_view() is Close ==> r@ == "Close"@,
    {
        match self.mode {
            ConnectionMode::ReadingRequest(_, _) => "ReadingRequest",
            ConnectionMode::WaitingForServerResponse(_) => "WaitingForServerResponse",
            ConnectionMode::SendingResponse(_, _, _) => "SendingResponse",
            ConnectionMode::Close => "Close",
        }
    }

    /// The I/O to perform for `events`: read into the free part of the
    /// buffer when reading and readable, write the unsent bytes when
    /// sending and writable, nothing otherwise (nor on error or hang-up).
    pub fn io_request(&self, events: &EventSet) -> (r: IoRequest)
        requires
            self.wf(),
        ensures
            events.error || events.hup ==> r is Nothing,
            !(events.error || events.hup) ==> match self.mode_view() {
                ModeView::Reading(buf, done) => if events.readable {
                    r matches IoRequest::Read(n) && n == buf.len() - done
                } else {
                    r is Nothing
                },
                ModeView::Sending(_, data, done) => if events.writable {
                    r matches IoRequest::Write(b) && b@ == data.subrange(done as int, data.len() as int)
                } else {
                    r is Nothing
                },
                _ => r is Nothing,
            },
    {
        if events.error || events.hup {
            return IoRequest::Nothing;
        }
        match &self.mode {
            ConnectionMode::ReadingRequest(buf, done) => {
                if events.readable {
                    IoRequest::Read(buf.len() - *done)
                } else {
                    IoRequest::Nothing
                }
            },
            ConnectionMode::SendingResponse(_, data, done) => {
                if events.writable {
                    IoRequest::Write(&data.as_slice()[*done..data.len()])
                } else {
                    IoRequest::Nothing
                }
            },
            _ => IoRequest::Nothing,
        }
    }

    /// One step on a readiness event: an error or hang-up closes the
    /// connection, otherwise the state moves on with the I/O performed.
    pub fn ready(self, events: EventSet, io: IoDone, token: usize) -> (r: (Connection<S>, Option<Request>))
        requires
            self.wf(),
            io_fits(self.mode_view(), events, io),
        ensures
            r.0.socket() == self.socket(),
            r.0.wf(),
            (r.0.mode_view(), match r.1 { Some(q) => Some(q@), None => None }) == step(self.mode_view(), events, io, token),
            r.1 matches Some(q) ==> q.wf(),
    {
        if events.error {
            return (self.replace_mode(ConnectionMode::Close), None);
        }
        if events.hup {
            return (self.replace_mode(ConnectionMode::Close), None);
        }
        self.transform(events, io, token)
    }

    fn transform(self, events: EventSet, io: IoDone, token: usize) -> (r: (Connection<S>, Option<Request>))
        requires
            self.wf(),
            io_fits(self.mode_view(), events, io),
            !events.error,
            !events.hup,
        ensures
            r.0.socket() == self.socket(),
            r.0.wf(),
            (r.0.mode_view(), match r.1 { Some(q) => Some(q@), None => None }) == step(self.mode_view(), events, io, token),
            r.1 matches Some(q) ==> q.wf(),
    {
        let Connection { stream, mode } = self;
        match mode {
            ConnectionMode::ReadingRequest(buf, done) => {
                transform_from_waiting_for_user(stream, events, buf, done, io, token)
            },
            ConnectionMode::WaitingForServerResponse(keep_alive) => {
                (Connection::make(stream, ConnectionMode::WaitingForServerResponse(keep_alive)), None)
            },
            ConnectionMode::SendingResponse(keep_alive, data, done) => {
                (transform_from_sending_to_user(stream, token, keep_alive, events, data, done, io), None)
            },
            ConnectionMode::Close => {
                (Connection::make(stream, ConnectionMode::Close), None)
            },
        }
    }
}

fn bad_request() -> (b: Vec<u8>)
    ensures
        b@ == bad_request_bytes(),
{
    inline_response::Response::create_400().into_bytes()
}

/// What a reading connection does with what the parser made of its
/// buffer: a complete and accepted head becomes a request, and the
/// connection waits for its answer (kept open after it when the request
/// asks for `Connection: keep-alive`); a refused head or bytes that no head
/// may hold are answered with 400; an incomplete head is read further.
pub fn parsed_step<S>(stream: S, parsed: ParseStatus, buf: Vec<u8>, done: usize, token: usize)
    -> (r: (Connection<S>, Option<Request>))
    requires
        mode_wf(ModeView::Reading(buf@, done as nat)),
    ensures
        r.0.socket() == stream,
        r.0.wf(),
        (r.0.mode_view(), match r.1 { Some(q) => Some(q@), None => None })
            == after_parsed(parsed@, buf@, done as nat, token),
        r.1 matches Some(q) ==> q.wf(),
{
    match parsed {
        ParseStatus::Complete(_, raw) => {
            match PreRequest::new(raw) {
                Ok(pre_request) => {
                    let request = pre_request.bind(token);
                    let keep_alive = request.is_header_set("Connection", "keep-alive");
                    (Connection::make(stream, ConnectionMode::WaitingForServerResponse(keep_alive)), Some(request))
                },
                Err(_) => {
                    (Connection::make(stream, ConnectionMode::SendingResponse(false, bad_request(), 0)), None)
                },
            }
        },
        ParseStatus::Partial => {
            (Connection::make(stream, ConnectionMode::ReadingRequest(buf, done)), None)
        },
        ParseStatus::Invalid => {
            (Connection::make(stream, ConnectionMode::SendingResponse(false, bad_request(), 0)), None)
        },
    }
}

fn transform_from_waiting_for_user<S>(stream: S, events: EventSet, buf: Vec<u8>, done: usize, io: IoDone, token: usize)
    -> (r: (Connection<S>, Option<Request>))
    requires
        mode_wf(ModeView::Reading(buf@, done as nat)),
        io_fits(ModeView::Reading(buf@, done as nat), events, io),
        !events.error,
        !events.hup,
    ensures
        r.0.socket() == stream,
        r.0.wf(),
        (r.0.mode_view(), match r.1 { Some(q) => Some(q@), None => None })
            == step(ModeView::Reading(buf@, done as nat), events, io, token),
        r.1 matches Some(q) ==> q.wf(),
{
    if events.readable {
        match io {
            IoDone::Read(ReadOutcome::Data(data)) => {
                if data.len() > 0 {
                    let mut buf = buf;
                    write_at(&mut buf, done, &data);
                    let done = done + data.len();
                    let parsed = parse_request(buf.as_slice(), MAX_HEADERS);
                    parsed_step(stream, parsed, buf, done, token)
                } else {
                    (Connection::make(stream, ConnectionMode::ReadingRequest(buf, done)), None)
                }
            },
            _ => (Connection::make(stream, ConnectionMode::ReadingRequest(buf, done)), None),
        }
    } else {
        (Connection::make(stream, ConnectionMode::ReadingRequest(buf, done)), None)
    }
}

fn transform_from_sending_to_user<S>(stream: S, token: usize, keep_alive: bool, events: EventSet, data: Vec<u8>,
    done: usize, io: IoDone) -> (r: Connection<S>)
    requires
        mode_wf(ModeView::Sending(keep_alive, data@, done as nat)),
        io_fits(ModeView::Sending(keep_alive, data@, done as nat), events, io),
        !events.error,
        !events.hup,
    ensures
        r.socket() == stream,
        r.wf(),
        step(ModeView::Sending(keep_alive, data@, done as nat), events, io, token)
            == (r.mode_view(), None::<SpecRequest>),
{
    if events.writable {
        match io {
            IoDone::Write(WriteOutcome::Written(size)) => {
                let len = data.len();
                if size > 0 {
                    let done = done + size;
                    if done == len {
                        if keep_alive == true {
                            Connection::make(stream, ConnectionMode::ReadingRequest(zero_buffer(), 0))
                        } else {
                            Connection::make(stream, ConnectionMode::Close)
                        }
                    } else {
                        Connection::make(stream, ConnectionMode::SendingResponse(keep_alive, data, done))
                    }
                } else {
                    Connection::make(stream, ConnectionMode::SendingResponse(keep_alive, data, done))
                }
            },
            _ => Connection::make(stream, ConnectionMode::SendingResponse(keep_alive, data, done)),
        }
    } else {
        Connection::make(stream, ConnectionMode::SendingResponse(keep_alive, data, done))
    }
}

/// The sum of a sequence of write sizes.
pub open spec fn total(writes: Seq<nat>) -> nat
    decreases writes.len(),
{
    if writes.len() == 0 {
        0
    } else {
        writes[0] + total(writes.drop_first())
    }
}

/// The state of a sending connection after a series of writes of the
/// given sizes, each on a writable event.
pub open spec fn after_writes(keep_alive: bool, data: Seq<u8>, done: nat, writes: Seq<nat>) -> ModeView
    decreases writes.len(),
{
    if writes.len() == 0 {
        ModeView::Sending(keep_alive, data, done)
    } else {
        match after_write(keep_alive, data, done, writes[0]) {
            ModeView::Sending(k, d, n) => after_writes(k, d, n, writes.drop_first()),
            other => other,
        }
    }
}

/// The readiness the event loop reports for a socket registered for
/// `event`, when there is no error or hang-up.
pub open spec fn reported(event: Event) -> EventSet {
    EventSet {
        readable: interest_of(event).readable,
        writable: interest_of(event).writable,
        error: false,
        hup: false,
    }
}

/// A connection is registered for the readiness its state needs: exactly
/// the reading ones hear that the socket is readable, and exactly the
/// sending ones that it is writable; so a sending connection, told of
/// the readiness it registered for, moves on with every write.
pub proof fn law_registration_serves_state(mode: ModeView, token: usize)
    ensures
        (mode is Reading) == interest_of(mode_event(mode)).readable,
        (mode is Sending) == interest_of(mode_event(mode)).writable,
        mode matches ModeView::Sending(k, data, done) ==> forall|n: usize| n > 0 ==>
            #[trigger] step(mode, reported(mode_event(mode)), IoDone::Write(WriteOutcome::Written(n)), token).0
                == after_write(k, data, done, n as nat),
        mode matches ModeView::Reading(buf, done) ==> forall|d: Vec<u8>| d@.len() > 0 ==>
            #[trigger] step(mode, reported(mode_event(mode)), IoDone::Read(ReadOutcome::Data(d)), token)
                == after_parse(after_read(buf, done, d@), done + d@.len(), token),
{
}

/// A connection is kept alive exactly when its request's Connection
/// header says keep-alive. For an accepted head, the connection waits for
/// its answer with keep-alive on exactly then; once the whole answer is
/// written it reads the next request, and with any other Connection
/// header (close, say) or none it is closed.
pub proof fn law_keep_alive_as_asked(buf: Seq<u8>, done: nat, token: usize, answer: Seq<u8>, writes: Seq<nat>)
    requires
        httparse_request(buf, MAX_HEADERS as nat) is Complete,
        raw_accepted(httparse_request(buf, MAX_HEADERS as nat)->Complete_1),
        writes.len() > 0,
        forall|i: int| 0 <= i < writes.len() ==> writes[i] > 0,
        total(writes) == answer.len(),
    ensures
        ({
            let head = accepted_head(httparse_request(buf, MAX_HEADERS as nat)->Complete_1);
            let asked = header_value(head.headers, "Connection"@) == Some(trimmed("keep-alive"@));
            &&& after_parse(buf, done, token).0 == ModeView::Waiting(asked)
            &&& after_writes(asked, answer, 0, writes) == (if asked {
                ModeView::Reading(empty_buffer(), 0)
            } else {
                ModeView::Close
            })
        }),
{
    let head = accepted_head(httparse_request(buf, MAX_HEADERS as nat)->Complete_1);
    let asked = header_value(head.headers, "Connection"@) == Some(trimmed("keep-alive"@));
    lemma_answer_sent(asked, answer, 0, writes);
}

/// An error or a hang-up closes a connection, whatever its state, and
/// yields no request.
pub proof fn lemma_error_closes(mode: ModeView, events: EventSet, io: IoDone, token: usize)
    requires
        events.error || events.hup,
    ensures
        step(mode, events, io, token) == (ModeView::Close, None::<SpecRequest>),
{
}

/// A closed connection stays closed and yields no request.
pub proof fn lemma_close_absorbing(events: EventSet, io: IoDone, token: usize)
    ensures
        step(ModeView::Close, events, io, token) == (ModeView::Close, None::<SpecRequest>),
{
}

/// A connection that waits for the server's answer is not moved by
/// readiness events (other than an error or a hang-up): only the answer
/// moves it on, to sending exactly the answer's bytes.
pub proof fn lemma_waiting_until_answered(keep_alive: bool, events: EventSet, io: IoDone, token: usize)
    requires
        !events.error,
        !events.hup,
    ensures
        step(ModeView::Waiting(keep_alive), events, io, token) == (ModeView::Waiting(keep_alive), None::<SpecRequest>),
{
}

/// A request comes only out of a reading connection; it carries the
/// connection's token, and the connection then waits for its answer.
pub proof fn lemma_request_then_wait(mode: ModeView, events: EventSet, io: IoDone, token: usize)
    ensures
        step(mode, events, io, token).1 matches Some(q) ==> {
            &&& mode is Reading
            &&& step(mode, events, io, token).0 is Waiting
            &&& q.token == token
        },
{
}

/// Every step keeps a connection's buffers in bounds, when the I/O done
/// is what was asked for.
pub proof fn lemma_step_wf(mode: ModeView, events: EventSet, io: IoDone, token: usize)
    requires
        mode_wf(mode),
        io_fits(mode, events, io),
    ensures
        mode_wf(step(mode, events, io, token).0),
{
    if !(events.error || events.hup) {
        match mode {
            ModeView::Reading(buf, done) => match io {
                IoDone::Read(ReadOutcome::Data(d)) => {
                    if events.readable && d@.len() > 0 {
                        let b = after_read(buf, done, d@);
                        assert(b.len() == buf.len());
                    }
                },
                _ => {},
            },
            _ => {},
        }
    }
}

/// A head that the parser refuses, or that is complete but not accepted,
/// is answered with 400, and the connection closes once that is sent.
pub proof fn lemma_refused_head_gets_400(buf: Seq<u8>, done: nat, token: usize)
    requires
        match httparse_request(buf, MAX_HEADERS as nat) {
            SpecParseStatus::Invalid => true,
            SpecParseStatus::Complete(_, raw) => !raw_accepted(raw),
            SpecParseStatus::Partial => false,
        },
    ensures
        after_parse(buf, done, token) == (ModeView::Sending(false, bad_request_bytes(), 0), None::<SpecRequest>),
{
}

/// Once writes of positive sizes have sent every byte of an answer, a
/// keep-alive connection reads its next request from an empty buffer and
/// any other connection is closed.
pub proof fn lemma_answer_sent(keep_alive: bool, data: Seq<u8>, done: nat, writes: Seq<nat>)
    requires
        writes.len() > 0,
        forall|i: int| 0 <= i < writes.len() ==> writes[i] > 0,
        done + total(writes) == data.len(),
    ensures
        after_writes(keep_alive, data, done, writes) == (if keep_alive {
            ModeView::Reading(empty_buffer(), 0)
        } else {
            ModeView::Close
        }),
    decreases writes.len(),
{
    let rest = writes.drop_first();
    if writes.len() == 1 {
        assert(total(rest) == 0);
    } else {
        assert(rest[0] == writes[1]);
        assert(total(rest) >= rest[0]) by {
            assert(total(rest) == rest[0] + total(rest.drop_first()));
        }
        assert forall|i: int| 0 <= i < rest.len() implies rest[i] > 0 by {
            assert(rest[i] == writes[i + 1]);
        }
        lemma_answer_sent(keep_alive, data, done + writes[0], rest);
    }
}

/// The bytes that writes of the given sizes put on the socket, each
/// taken, as `io_request` asks, from where the previous one ended.
pub open spec fn written(data: Seq<u8>, done: nat, writes: Seq<nat>) -> Seq<u8>
    decreases writes.len(),
{
    if writes.len() == 0 {
        Seq::empty()
    } else {
        data.subrange(done as int, (done + writes[0]) as int) + written(data, done + writes[0], writes.drop_first())
    }
}

/// What the client receives is the answer's bytes, in order and each
/// once: the writes together send exactly the bytes from where sending
/// stood, as many as they add up to.
pub proof fn lemma_written_bytes(data: Seq<u8>, done: nat, writes: Seq<nat>)
    requires
        done + total(writes) <= data.len(),
    ensures
        written(data, done, writes) == data.subrange(done as int, (done + total(writes)) as int),
    decreases writes.len(),
{
    if writes.len() > 0 {
        let rest = writes.drop_first();
        lemma_written_bytes(data, done + writes[0], rest);
        assert(written(data, done, writes) =~= data.subrange(done as int, (done + total(writes)) as int));
    } else {
        assert(written(data, done, writes) =~= data.subrange(done as int, (done + total(writes)) as int));
    }
}

/// Reading appends: after bytes are read into the buffer at the filled
/// mark, the filled part is what it was followed by the bytes read, and
/// the buffer keeps its size.
pub proof fn lemma_read_appends(buf: Seq<u8>, done: nat, data: Seq<u8>)
    requires
        done + data.len() <= buf.len(),
    ensures
        after_read(buf, done, data).take((done + data.len()) as int) == buf.take(done as int) + data,
        after_read(buf, done, data).len() == buf.len(),
{
    assert(after_read(buf, done, data).take((done + data.len()) as int) =~= buf.take(done as int) + data);
}

} // verus!
