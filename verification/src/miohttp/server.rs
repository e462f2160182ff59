//! The connection table of the event-loop handler, and the decisions it
//! takes about event registration and timers. Registering sockets and
//! timers with the event loop is left to the caller, which performs the
//! decisions returned here.

use vstd::prelude::*;
use std::collections::HashMap;
use crate::miohttp::connection::{Connection, ModeView, TimerMode, EventSet, IoDone, mode_event, mode_timer, step, io_fits};
use crate::miohttp::request::Request;
use crate::miohttp::token_gen::TokenGen;

verus! {

broadcast use vstd::std_specs::hash::group_hash_axioms;

/// The readiness a connection's socket is registered for.
#[derive(Debug, Clone, Copy, PartialEq, Eq, Structural)]
pub enum Event {
    Init,
    Write,
    Read,
    Idle,
}

/// The readiness a socket is to be told about: always errors and
/// hang-ups, and reading or writing as its event asks.
#[derive(Debug, Clone, Copy, PartialEq, Eq, Structural)]
pub struct Interest {
    pub readable: bool,
    pub writable: bool,
    pub error: bool,
    pub hup: bool,
}

/// What to do with a socket's registration in the event loop.
#[derive(Debug, Clone, Copy, PartialEq, Eq, Structural)]
pub enum Registration {
    /// Leave it as it is.
    Keep,
    /// Register the socket for the first time.
    Register(Interest),
    /// Change the registration of a registered socket.
    Reregister(Interest),
}

/// What to do with a connection's timer.
pub enum TimerAction<T> {
    /// Keep the running timer.
    Keep(T),
    /// Cancel the running timer; the connection then has none.
    Clear(T),
    /// Start a timer of this many milliseconds.
    Start(u64),
    /// There is no timer and none is needed.
    Nothing,
}

pub open spec fn interest_of(event: Event) -> Interest {
    Interest {
        readable: event == Event::Read,
        writable: event == Event::Write,
        error: true,
        hup: true,
    }
}

/// The registration that moving a socket from `old_event` to `new_event`
/// takes: a socket still at `Init` is registered, any other reregistered;
/// moving to `Init` changes nothing.
pub open spec fn registration_for(old_event: Event, new_event: Event) -> Registration {
    if new_event == Event::Init {
        Registration::Keep
    } else if old_event == Event::Init {
        Registration::Register(interest_of(new_event))
    } else {
        Registration::Reregister(interest_of(new_event))
    }
}

/// `acc` with the flag `name` added when `set`: flags are joined by
/// ` | `, as `mio` prints an event set.
pub open spec fn add_flag(acc: Seq<char>, set: bool, name: Seq<char>) -> Seq<char> {
    if !set {
        acc
    } else if acc.len() == 0 {
        name
    } else {
        acc + " | "@ + name
    }
}

/// How `mio` prints an event set (`Debug` of `mio::EventSet`): the flags
/// that are set, in the order readable, writable, error, hang-up.
pub open spec fn interest_text(i: Interest) -> Seq<char> {
    add_flag(add_flag(add_flag(add_flag(Seq::empty(), i.readable, "Readable"@), i.writable, "Writable"@),
        i.error, "Error"@), i.hup, "Hup"@)
}

/// The message the log gets for a registration: the word, and the event
/// set registered for.
pub open spec fn registration_log(old_event: Event, new_event: Event) -> Seq<char> {
    let word = if old_event == Event::Init { "register: "@ } else { "reregister: "@ };
    if new_event == Event::Init {
        word + "none"@
    } else {
        word + interest_text(interest_of(new_event))
    }
}

fn push_flag(acc: String, set: bool, name: &str) -> (r: String)
    ensures
        r@ == add_flag(acc@, set, name@),
{
    if !set {
        acc
    } else if acc.as_str().is_empty() {
        String::from_str(name)
    } else {
        acc.concat(" | ").concat(name)
    }
}

/// The text of an event set, as `mio` prints it.
pub fn interest_to_string(i: Interest) -> (r: String)
    ensures
        r@ == interest_text(i),
{
    let acc = String::new();
    let acc = push_flag(acc, i.readable, "Readable");
    let acc = push_flag(acc, i.writable, "Writable");
    let acc = push_flag(acc, i.error, "Error");
    push_flag(acc, i.hup, "Hup")
}

/// The registration change for a socket whose event goes from
/// `old_event` to `new_event`, and the message for the log.
pub fn set_event(old_event: Event, new_event: Event) -> (r: (Registration, String))
    ensures
        r.0 == registration_for(old_event, new_event),
        r.1@ == registration_log(old_event, new_event),
{
    let interest = Interest {
        readable: new_event == Event::Read,
        writable: new_event == Event::Write,
        error: true,
        hup: true,
    };
    let word = if old_event == Event::Init { String::from_str("register: ") } else { String::from_str("reregister: ") };
    match new_event {
        Event::Init => (Registration::Keep, word.concat("none")),
        _ => {
            let text = interest_to_string(interest);
            let registration = if old_event == Event::Init {
                Registration::Register(interest)
            } else {
                Registration::Reregister(interest)
            };
            (registration, word.concat(text.as_str()))
        },
    }
}

/// The registration change when a socket's event goes from `old_event` to
/// `new_event`, and the message for the log: nothing, and `none`, when
/// the event stays the same.
pub fn event_change(old_event: Event, new_event: Event) -> (r: (Registration, String))
    ensures
        old_event == new_event ==> r.0 == Registration::Keep && r.1@ == "none"@,
        old_event != new_event ==> r.0 == registration_for(old_event, new_event)
            && r.1@ == registration_log(old_event, new_event),
{
    if old_event != new_event {
        set_event(old_event, new_event)
    } else {
        (Registration::Keep, String::from_str("none"))
    }
}

/// The message the log gets for a timer decision: `keep`, `clear` or
/// `none`; for a timer started, `timer in set` or `timer out set`, and
/// `timer in error` or `timer out error` when the event loop refused it.
pub open spec fn timer_log<T>(action: TimerAction<T>, timer_mode: TimerMode, started: bool) -> Seq<char> {
    match action {
        TimerAction::Keep(_) => "keep"@,
        TimerAction::Clear(_) => "clear"@,
        TimerAction::Nothing => "none"@,
        TimerAction::Start(_) => if timer_mode == TimerMode::In {
            if started { "timer in set"@ } else { "timer in error"@ }
        } else {
            if started { "timer out set"@ } else { "timer out error"@ }
        },
    }
}

/// The message for the log about a timer decision; `started` tells
/// whether the event loop took a timer that was to be started.
pub fn timer_message<T>(action: &TimerAction<T>, timer_mode: TimerMode, started: bool) -> (r: &'static str)
    ensures
        r@ == timer_log(*action, timer_mode, started),
{
    match action {
        TimerAction::Keep(_) => "keep",
        TimerAction::Clear(_) => "clear",
        TimerAction::Nothing => "none",
        TimerAction::Start(_) => if timer_mode == TimerMode::In {
            if started { "timer in set" } else { "timer in error" }
        } else {
            if started { "timer out set" } else { "timer out error" }
        },
    }
}

/// What to do with a timer, `timeout`, when the connection asks for
/// `timer_mode`, with the reading and writing timeouts given.
pub open spec fn timer_action<T>(timeout: Option<T>, timer_mode: TimerMode, timeouts: (u64, u64)) -> TimerAction<T> {
    match timeout {
        Some(t) => if timer_mode == TimerMode::Idle {
            TimerAction::Clear(t)
        } else {
            TimerAction::Keep(t)
        },
        None => match timer_mode {
            TimerMode::In => TimerAction::Start(timeouts.0),
            TimerMode::Out => TimerAction::Start(timeouts.1),
            TimerMode::Idle => TimerAction::Nothing,
        },
    }
}

/// A connection in the table: its state, the event its socket is
/// registered for, and its timer.
pub type Entry<S, T> = (Connection<S>, Event, Option<T>);

/// What becomes of a connection after the I/O for a readiness event.
pub enum SocketStep<S, T> {
    /// The connection closed: it leaves the table, and its timer, if it
    /// has one, is to be cancelled.
    Closed(Option<T>),
    /// The connection goes back into the table with the event and timer it
    /// had, and the request it read, if any, goes to the workers.
    Open(Entry<S, T>, Option<Request>),
}

/// The step of a connection taken out of the table, on `events` with the
/// I/O `io` performed for them.
pub fn socket_step<S, T>(entry: Entry<S, T>, events: EventSet, io: IoDone, token: usize) -> (r: SocketStep<S, T>)
    requires
        entry.0.wf(),
        io_fits(entry.0.mode_view(), events, io),
    ensures
        step(entry.0.mode_view(), events, io, token).0 is Close ==> r == SocketStep::<S, T>::Closed(entry.2),
        !(step(entry.0.mode_view(), events, io, token).0 is Close) ==> (r matches SocketStep::Open(e, q) && {
            &&& e.0.socket() == entry.0.socket()
            &&& e.0.wf()
            &&& e.0.mode_view() == step(entry.0.mode_view(), events, io, token).0
            &&& e.1 == entry.1
            &&& e.2 == entry.2
            &&& (match q { Some(q) => Some(q@), None => None }) == step(entry.0.mode_view(), events, io, token).1
            &&& q matches Some(q) ==> q.wf()
        }),
{
    let (connection, old_event, timeout) = entry;
    let (connection, request) = connection.ready(events, io, token);
    if connection.in_state_close() {
        SocketStep::Closed(timeout)
    } else {
        SocketStep::Open((connection, old_event, timeout), request)
    }
}

/// The state of the event-loop handler: the token of the listening
/// socket, the open connections by token, the token source and the
/// timeouts for reading a request and writing an answer.
pub struct MyHandler<S, T> {
    token: usize,
    hash: HashMap<usize, Entry<S, T>>,
    tokens: TokenGen,
    timeout_reading: u64,
    timeout_writing: u64,
}

/// An entry as the table keeps it: the connection is well formed and not
/// closed, and its socket is registered for the connection's event.
pub open spec fn entry_ok<S, T>(e: Entry<S, T>) -> bool {
    &&& e.0.wf()
    &&& !(e.0.mode_view() is Close)
    &&& e.1 == mode_event(e.0.mode_view())
}

impl<S, T> MyHandler<S, T> {
    pub closed spec fn table(&self) -> Map<usize, Entry<S, T>> {
        self.hash@
    }

    pub closed spec fn server_token(&self) -> usize {
        self.token
    }

    /// The next token that the handler hands out.
    pub closed spec fn next_token(&self) -> nat {
        self.tokens.next_token()
    }

    pub closed spec fn timeouts(&self) -> (u64, u64) {
        (self.timeout_reading, self.timeout_writing)
    }

    /// Every connection in the table is open and registered for its
    /// event, and has a token that was handed out and is not the
    /// listening socket's.
    pub closed spec fn wf(&self) -> bool {
        &&& self.token < self.tokens.next_token()
        &&& forall|t: usize| #[trigger] self.hash@.contains_key(t) ==> {
            &&& t < self.tokens.next_token()
            &&& t != self.token
            &&& entry_ok(self.hash@[t])
        }
    }

    /// A handler with no connections; the first token is the listening socket's.
    pub fn new(timeout_reading: u64, timeout_writing: u64) -> (r: MyHandler<S, T>)
        ensures
            r.wf(),
            r.table() == Map::<usize, Entry<S, T>>::empty(),
            r.server_token() == 0,
            r.next_token() == 1,
            r.timeouts() == (timeout_reading, timeout_writing),
    {
        let mut tokens = TokenGen::new();
        let token = tokens.get();
        MyHandler { token, hash: HashMap::new(), tokens, timeout_reading, timeout_writing }
    }

    /// Whether an event is for the listening socket.
    pub fn is_server(&self, token: usize) -> (r: bool)
        ensures
            r == (token == self.server_token()),
    {
        token == self.token
    }

    /// Whether a token for another connection can be handed out.
    pub fn can_issue_token(&self) -> (r: bool)
        ensures
            r == (self.next_token() < usize::MAX),
    {
        self.tokens.has_next()
    }

    /// The token for a newly accepted connection: one that no connection
    /// in the table has, nor the listening socket.
    pub fn new_token(&mut self) -> (t: usize)
        requires
            old(self).wf(),
            old(self).next_token() < usize::MAX,
        ensures
            final(self).wf(),
            t == old(self).next_token(),
            !old(self).table().contains_key(t),
            t != old(self).server_token(),
            final(self).next_token() == old(self).next_token() + 1,
            final(self).table() == old(self).table(),
            final(self).server_token() == old(self).server_token(),
            final(self).timeouts() == old(self).timeouts(),
    {
        self.tokens.get()
    }

    /// Takes a connection out of the table.
    pub fn get_connection(&mut self, token: usize) -> (r: Option<Entry<S, T>>)
        requires
            old(self).wf(),
        ensures
            final(self).wf(),
            final(self).table() == old(self).table().remove(token),
            old(self).table().contains_key(token) ==> r == Some(old(self).table()[token]),
            !old(self).table().contains_key(token) ==> r is None,
            r matches Some(e) ==> entry_ok(e),
            final(self).server_token() == old(self).server_token(),
            final(self).next_token() == old(self).next_token(),
            final(self).timeouts() == old(self).timeouts(),
    {
        self.hash.remove(&token)
    }

    /// Puts a connection into the table under its token, registered for
    /// its event and with the timer given.
    pub fn insert_connection(&mut self, token: usize, connection: Connection<S>, timer: Option<T>)
        requires
            old(self).wf(),
            connection.wf(),
            !(connection.mode_view() is Close),
            token < old(self).next_token(),
            token != old(self).server_token(),
        ensures
            final(self).wf(),
            final(self).table() == old(self).table().insert(
                token,
                (connection, mode_event(connection.mode_view()), timer),
            ),
            final(self).server_token() == old(self).server_token(),
            final(self).next_token() == old(self).next_token(),
            final(self).timeouts() == old(self).timeouts(),
    {
        let new_event = connection.get_event();
        self.hash.insert(token, (connection, new_event, timer));
    }

    /// The number of connections in the table.
    pub fn count(&self) -> (n: usize)
        ensures
            n == self.table().len(),
    {
        self.hash.len()
    }

    /// What to do with a connection's timer when its state asks for
    /// `timer_mode`: a running timer is kept while the connection reads
    /// or writes and cleared otherwise; a missing one is started, with
    /// the reading or the writing timeout, when one is needed.
    pub fn set_timer(&self, timeout: Option<T>, timer_mode: TimerMode) -> (r: TimerAction<T>)
        ensures
            r == timer_action(timeout, timer_mode, self.timeouts()),
    {
        match timeout {
            Some(timeout) => match timer_mode {
                TimerMode::In => TimerAction::Keep(timeout),
                TimerMode::Out => TimerAction::Keep(timeout),
                TimerMode::Idle => TimerAction::Clear(timeout),
            },
            None => match timer_mode {
                TimerMode::In => TimerAction::Start(self.timeout_reading),
                TimerMode::Out => TimerAction::Start(self.timeout_writing),
                TimerMode::Idle => TimerAction::Nothing,
            },
        }
    }
}

/// The table holds only open connections, each registered for the
/// event its state asks for, under a token that was handed out and is
/// not the listening socket's.
pub proof fn lemma_table_holds_open<S, T>(h: MyHandler<S, T>, t: usize)
    requires
        h.wf(),
        h.table().contains_key(t),
    ensures
        !(h.table()[t].0.mode_view() is Close),
        h.table()[t].0.wf(),
        h.table()[t].1 == mode_event(h.table()[t].0.mode_view()),
        t != h.server_token(),
        t < h.next_token(),
{
}

/// A token that the handler hands out next names no connection in the
/// table and is not the listening socket's.
pub proof fn lemma_next_token_fresh<S, T>(h: MyHandler<S, T>, t: usize)
    requires
        h.wf(),
        t as nat == h.next_token(),
    ensures
        !h.table().contains_key(t),
        t != h.server_token(),
{
}

/// Taking a connection out of the table and putting it back unchanged
/// leaves the table as it was.
pub proof fn lemma_take_and_put_back<S, T>(h: MyHandler<S, T>, t: usize)
    requires
        h.wf(),
        h.table().contains_key(t),
    ensures
        ({
            let e = h.table()[t];
            h.table().remove(t).insert(t, (e.0, mode_event(e.0.mode_view()), e.2)) == h.table()
        }),
{
    let e = h.table()[t];
    assert(h.table().remove(t).insert(t, (e.0, mode_event(e.0.mode_view()), e.2)) =~= h.table());
}

/// A socket is registered only while it is at `Init`; once registered it
/// is only ever reregistered.
pub proof fn lemma_register_once(old_event: Event, new_event: Event)
    ensures
        registration_for(old_event, new_event) is Register ==> old_event == Event::Init,
        old_event != Event::Init && new_event != Event::Init ==> registration_for(old_event, new_event) is Reregister,
{
}

/// A connection keeps or gets a timer exactly when it reads or writes,
/// and the timer it gets is the reading or the writing one.
pub proof fn lemma_timer_follows_mode<T>(timeout: Option<T>, mode: ModeView, timeouts: (u64, u64))
    ensures
        (timer_action(timeout, mode_timer(mode), timeouts) is Keep || timer_action(timeout, mode_timer(mode), timeouts) is Start)
            <==> (mode is Reading || mode is Sending),
        mode is Reading && timeout is None ==> timer_action(timeout, mode_timer(mode), timeouts) == TimerAction::<T>::Start(timeouts.0),
        mode is Sending && timeout is None ==> timer_action(timeout, mode_timer(mode), timeouts) == TimerAction::<T>::Start(timeouts.1),
{
}

} // verus!
