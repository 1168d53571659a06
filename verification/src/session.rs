//! The protocol session, written without I/O: `poll` says what the transport
//! should do next, `handle` takes in what the transport saw. One session
//! serves one scrape and is then discarded.

use vstd::prelude::*;
use crate::extract::{count_of, extract_count, extract_uptime, uptime_of};
use crate::outcome::{Facts, ScrapeOutcome};
use crate::reply::{
    parse_line, parse_line_spec, Command, CommandView, LineView, RPL_ENDOFSTATS,
    RPL_GLOBALUSERS, RPL_LOCALUSERS, RPL_STATSUPTIME, RPL_WELCOME,
};
use crate::wire::{
    append, append_pong, build_handshake, check_token, handshake, is_token, pong, uptime_command,
    users_command,
};

verus! {

/// One question a session puts to the server.
#[derive(Clone, Copy, Debug, PartialEq, Eq)]
pub enum Query {
    Uptime,
    Users,
    Certificate,
}

/// Where a session stands.
#[derive(Clone, Copy, Debug, PartialEq, Eq)]
pub enum State {
    /// The transport has not opened yet.
    Connecting,
    /// The handshake is written or queued; registration is pending.
    HandshakeSent,
    /// The server confirmed registration.
    Registered,
    /// Between two queries.
    Ready,
    /// A query is out and its reply is pending.
    AwaitingReply(Query),
    /// The transport did not open.
    ConnectFailed,
    /// Registration was not confirmed in time.
    HandshakeTimeout,
    /// The session has ended.
    Closed,
}

/// What the transport reports to a session.
#[derive(Clone, Debug, PartialEq, Eq)]
pub enum Event {
    /// The connection is open.
    Opened,
    /// The connection could not be opened.
    OpenFailed,
    /// One line arrived.
    Line(Vec<u8>),
    /// Nothing arrived within the time allowed for one reply.
    IdleTimeout,
    /// The time allowed for the whole scrape is used up.
    BudgetExpired,
    /// The expiration of the peer certificate, as seconds since the epoch,
    /// where the transport could tell.
    Certificate(Option<i64>),
    /// The server closed the connection.
    RemoteClosed,
    /// The request was aborted from outside.
    Cancelled,
}

/// Mathematical value of an [`Event`].
pub enum EventView {
    Opened,
    OpenFailed,
    Line(Seq<u8>),
    IdleTimeout,
    BudgetExpired,
    Certificate(Option<i64>),
    RemoteClosed,
    Cancelled,
}

impl View for Event {
    type V = EventView;

    open spec fn view(&self) -> EventView {
        match *self {
            Event::Opened => EventView::Opened,
            Event::OpenFailed => EventView::OpenFailed,
            Event::Line(l) => EventView::Line(l@),
            Event::IdleTimeout => EventView::IdleTimeout,
            Event::BudgetExpired => EventView::BudgetExpired,
            Event::Certificate(c) => EventView::Certificate(c),
            Event::RemoteClosed => EventView::RemoteClosed,
            Event::Cancelled => EventView::Cancelled,
        }
    }
}

/// What a session asks of the transport.
#[derive(Clone, Debug, PartialEq, Eq)]
pub enum Action {
    /// Open the connection, then report `Opened` or `OpenFailed`.
    Open,
    /// Write these bytes; nothing to report.
    Send(Vec<u8>),
    /// Wait for one line, then report it, or what happened instead.
    Read,
    /// Look up the expiration of the peer certificate and report it.
    InspectCertificate,
    /// Close the connection; the session is over.
    Finish,
}

/// Mathematical value of an [`Action`].
pub enum ActionView {
    Open,
    Send(Seq<u8>),
    Read,
    InspectCertificate,
    Finish,
}

impl View for Action {
    type V = ActionView;

    open spec fn view(&self) -> ActionView {
        match *self {
            Action::Open => ActionView::Open,
            Action::Send(b) => ActionView::Send(b@),
            Action::Read => ActionView::Read,
            Action::InspectCertificate => ActionView::InspectCertificate,
            Action::Finish => ActionView::Finish,
        }
    }
}

/// One protocol conversation over one connection.
#[derive(Clone, Debug, PartialEq, Eq)]
pub struct Session {
    /// Whether the transport is secured.
    pub secure: bool,
    /// The identity made up for this session.
    pub nick: Vec<u8>,
    /// The password to announce, where the server wants one.
    pub password: Option<Vec<u8>>,
    pub state: State,
    /// How many queries have been started.
    pub asked: u8,
    /// Whether the server confirmed registration.
    pub registered: bool,
    /// Whether the request was aborted from outside.
    pub cancelled: bool,
    pub facts: Facts,
    /// Bytes waiting to be written.
    pub outbox: Vec<u8>,
}

/// Mathematical value of a [`Session`].
pub struct SessionView {
    pub secure: bool,
    pub nick: Seq<u8>,
    pub password: Option<Seq<u8>>,
    pub state: State,
    pub asked: u8,
    pub registered: bool,
    pub cancelled: bool,
    pub facts: Facts,
    pub outbox: Seq<u8>,
}

impl View for Session {
    type V = SessionView;

    open spec fn view(&self) -> SessionView {
        SessionView {
            secure: self.secure,
            nick: self.nick@,
            password: match self.password {
                Some(p) => Some(p@),
                None => None,
            },
            state: self.state,
            asked: self.asked,
            registered: self.registered,
            cancelled: self.cancelled,
            facts: self.facts,
            outbox: self.outbox@,
        }
    }
}

/// The query that follows once `asked` queries have been started: uptime,
/// then user counts, then, on a secured transport only, the certificate.
pub open spec fn next_query(asked: u8, secure: bool) -> Option<Query> {
    if asked == 0 {
        Some(Query::Uptime)
    } else if asked == 1 {
        Some(Query::Users)
    } else if asked == 2 && secure {
        Some(Query::Certificate)
    } else {
        None
    }
}

/// The bytes that put a query to the server. The certificate is asked of
/// the transport, not of the server.
pub open spec fn query_command(q: Query) -> Seq<u8> {
    match q {
        Query::Uptime => uptime_command(),
        Query::Users => users_command(),
        Query::Certificate => Seq::<u8>::empty(),
    }
}

/// The place of a query in the fixed order, counted from one.
pub open spec fn query_ordinal(q: Query) -> u8 {
    match q {
        Query::Uptime => 1,
        Query::Users => 2,
        Query::Certificate => 3,
    }
}

impl SessionView {
    /// A fresh session.
    pub open spec fn initial(secure: bool, nick: Seq<u8>, password: Option<Seq<u8>>) -> SessionView {
        SessionView {
            secure,
            nick,
            password,
            state: State::Connecting,
            asked: 0,
            registered: false,
            cancelled: false,
            facts: Facts::none(),
            outbox: Seq::empty(),
        }
    }

    /// The session has reached a state that it does not leave.
    pub open spec fn finished(self) -> bool {
        self.state is ConnectFailed || self.state is HandshakeTimeout || self.state is Closed
    }

    /// What every session reachable from a fresh one satisfies.
    pub open spec fn wf(self) -> bool {
        &&& is_token(self.nick)
        &&& self.password is Some ==> is_token(self.password.unwrap())
        &&& self.asked <= 3
        &&& !self.secure ==> self.facts.tls_cert_expiration_epoch is None
        &&& self.asked == 0 ==> self.facts == Facts::none()
        &&& self.asked <= 1 ==> self.facts.global_user_count is None && self.facts.local_user_count is None
        &&& self.asked <= 2 ==> self.facts.tls_cert_expiration_epoch is None
        &&& !self.registered ==> self.asked == 0
        &&& self.cancelled ==> self.state is Closed && self.outbox.len() == 0
        &&& match self.state {
            State::Connecting => !self.registered && self.outbox.len() == 0,
            State::HandshakeSent => !self.registered,
            State::ConnectFailed => !self.registered && self.outbox.len() == 0,
            State::HandshakeTimeout => !self.registered && self.outbox.len() == 0,
            State::Registered => self.registered && self.asked == 0,
            State::Ready => self.registered && self.asked >= 1,
            State::AwaitingReply(q) => self.registered && self.asked == query_ordinal(q) && (q is Certificate
                ==> self.secure),
            State::Closed => true,
        }
    }

    /// The session ended: nothing is left to write.
    pub open spec fn close(self) -> SessionView {
        SessionView { state: State::Closed, outbox: Seq::empty(), ..self }
    }

    /// The session after a numbered reply arrived while `q` was out.
    pub open spec fn on_reply(self, q: Query, code: u16, payload: Seq<u8>) -> SessionView {
        match q {
            Query::Uptime => if code == RPL_STATSUPTIME {
                SessionView { facts: Facts { uptime_seconds: uptime_of(payload), ..self.facts }, ..self }
            } else if code == RPL_ENDOFSTATS {
                SessionView { state: State::Ready, ..self }
            } else {
                self
            },
            Query::Users => if code == RPL_LOCALUSERS {
                SessionView { facts: Facts { local_user_count: count_of(payload), ..self.facts }, ..self }
            } else if code == RPL_GLOBALUSERS {
                SessionView {
                    state: State::Ready,
                    facts: Facts { global_user_count: count_of(payload), ..self.facts },
                    ..self
                }
            } else {
                self
            },
            Query::Certificate => self,
        }
    }

    /// The session after a line arrived.
    pub open spec fn on_line(self, line: LineView) -> SessionView {
        match self.state {
            State::HandshakeSent => match line.command {
                CommandView::Ping => SessionView { outbox: self.outbox + pong(line.payload), ..self },
                CommandView::Numeric(code) => if code == RPL_WELCOME {
                    SessionView { state: State::Registered, registered: true, ..self }
                } else {
                    self
                },
                CommandView::Error => self.close(),
                CommandView::Other => self,
            },
            State::AwaitingReply(q) => match line.command {
                CommandView::Ping => SessionView { outbox: self.outbox + pong(line.payload), ..self },
                CommandView::Numeric(code) => self.on_reply(q, code, line.payload),
                CommandView::Error => self.close(),
                CommandView::Other => self,
            },
            _ => self,
        }
    }

    /// The session after the transport reported `event`. A session that is
    /// still connecting takes the report as the answer to its one attempt
    /// to open: anything but `Opened` means that the attempt failed.
    pub open spec fn handle(self, event: EventView) -> SessionView {
        if event is Cancelled {
            SessionView { cancelled: true, ..self.close() }
        } else if self.finished() {
            self
        } else if self.state is Connecting {
            if event is Opened {
                SessionView {
                    state: State::HandshakeSent,
                    outbox: handshake(self.nick, self.password),
                    ..self
                }
            } else {
                SessionView { state: State::ConnectFailed, outbox: Seq::empty(), ..self }
            }
        } else {
            match event {
                EventView::Line(l) => match parse_line_spec(l) {
                    Some(line) => self.on_line(line),
                    None => self,
                },
                EventView::IdleTimeout => match self.state {
                    State::HandshakeSent => SessionView {
                        state: State::HandshakeTimeout,
                        outbox: Seq::empty(),
                        ..self
                    },
                    State::AwaitingReply(_) => SessionView { state: State::Ready, ..self },
                    _ => self,
                },
                EventView::BudgetExpired => if self.state is HandshakeSent {
                    SessionView { state: State::HandshakeTimeout, outbox: Seq::empty(), ..self }
                } else {
                    self.close()
                },
                EventView::RemoteClosed => self.close(),
                EventView::Certificate(c) => if self.state == State::AwaitingReply(Query::Certificate) {
                    SessionView {
                        state: State::Ready,
                        facts: Facts { tls_cert_expiration_epoch: c, ..self.facts },
                        ..self
                    }
                } else {
                    self
                },
                _ => self,
            }
        }
    }

    /// The session once it has moved on from between two queries: the next
    /// query is out, or, where none is left, the session has ended.
    pub open spec fn advance(self) -> SessionView {
        if self.state is Registered || self.state is Ready {
            match next_query(self.asked, self.secure) {
                Some(q) => SessionView {
                    state: State::AwaitingReply(q),
                    asked: (self.asked + 1) as u8,
                    outbox: self.outbox + query_command(q),
                    ..self
                },
                None => SessionView { state: State::Closed, ..self },
            }
        } else {
            self
        }
    }

    /// The session after it was asked what to do next, and its answer:
    /// queued bytes are written first, then the state decides.
    pub open spec fn poll(self) -> (SessionView, ActionView) {
        let s = self.advance();
        if s.outbox.len() > 0 {
            (SessionView { outbox: Seq::empty(), ..s }, ActionView::Send(s.outbox))
        } else {
            (
                s,
                match s.state {
                    State::Connecting => ActionView::Open,
                    State::HandshakeSent => ActionView::Read,
                    State::AwaitingReply(q) => if q is Certificate {
                        ActionView::InspectCertificate
                    } else {
                        ActionView::Read
                    },
                    _ => ActionView::Finish,
                },
            )
        }
    }

    /// How the scrape ended, once the session has: nothing for a cancelled
    /// session or one that still runs.
    pub open spec fn outcome(self) -> Option<ScrapeOutcome> {
        if self.cancelled {
            None
        } else {
            match self.state {
                State::ConnectFailed => Some(ScrapeOutcome::Unreachable),
                State::HandshakeTimeout => Some(ScrapeOutcome::HandshakeFailed),
                State::Closed => if !self.registered {
                    Some(ScrapeOutcome::HandshakeFailed)
                } else if self.facts.complete(self.secure) {
                    Some(ScrapeOutcome::Complete(self.facts))
                } else {
                    Some(ScrapeOutcome::Partial(self.facts))
                },
                _ => None,
            }
        }
    }
}

/// The view of an optional password.
pub open spec fn password_view(password: Option<Vec<u8>>) -> Option<Seq<u8>> {
    match password {
        Some(p) => Some(p@),
        None => None,
    }
}

impl Session {
    /// Starts a session. The nickname, and the password where there is one,
    /// must each be able to stand as one parameter of a command; else no
    /// session is made.
    pub fn new(secure: bool, nick: Vec<u8>, password: Option<Vec<u8>>) -> (out: Option<Session>)
        ensures
            out is Some <==> is_token(nick@) && (password is Some ==> is_token(password.unwrap()@)),
            out is Some ==> out.unwrap()@ == SessionView::initial(secure, nick@, password_view(password))
                && out.unwrap()@.wf(),
    {
        if !check_token(&nick) {
            return None;
        }
        let password_ok = match &password {
            Some(p) => check_token(p),
            None => true,
        };
        if !password_ok {
            return None;
        }
        Some(
            Session {
                secure,
                nick,
                password,
                state: State::Connecting,
                asked: 0,
                registered: false,
                cancelled: false,
                facts: Facts::empty(),
                outbox: Vec::new(),
            },
        )
    }

    /// Whether the session has reached a state that it does not leave.
    pub fn is_finished(&self) -> (b: bool)
        ensures
            b == self@.finished(),
    {
        match self.state {
            State::ConnectFailed => true,
            State::HandshakeTimeout => true,
            State::Closed => true,
            _ => false,
        }
    }

    fn close(&mut self)
        ensures
            final(self)@ == old(self)@.close(),
    {
        self.state = State::Closed;
        self.outbox = Vec::new();
    }

    fn fail(&mut self, state: State)
        ensures
            final(self)@ == (SessionView { state, outbox: Seq::empty(), ..old(self)@ }),
    {
        self.state = state;
        self.outbox = Vec::new();
    }

    fn on_reply(&mut self, q: Query, code: u16, payload: &Vec<u8>)
        ensures
            final(self)@ == old(self)@.on_reply(q, code, payload@),
    {
        match q {
            Query::Uptime => {
                if code == RPL_STATSUPTIME {
                    self.facts.uptime_seconds = extract_uptime(payload.as_slice());
                } else if code == RPL_ENDOFSTATS {
                    self.state = State::Ready;
                }
            },
            Query::Users => {
                if code == RPL_LOCALUSERS {
                    self.facts.local_user_count = extract_count(payload.as_slice());
                } else if code == RPL_GLOBALUSERS {
                    self.facts.global_user_count = extract_count(payload.as_slice());
                    self.state = State::Ready;
                }
            },
            Query::Certificate => {},
        }
    }

    fn on_line(&mut self, command: Command, payload: &Vec<u8>)
        ensures
            final(self)@ == old(self)@.on_line(LineView { command: command@, payload: payload@ }),
    {
        match self.state {
            State::HandshakeSent => match command {
                Command::Ping => {
                    append_pong(&mut self.outbox, payload);
                },
                Command::Numeric(code) => {
                    if code == RPL_WELCOME {
                        self.state = State::Registered;
                        self.registered = true;
                    }
                },
                Command::Error => {
                    self.close();
                },
                Command::Other => {},
            },
            State::AwaitingReply(q) => match command {
                Command::Ping => {
                    append_pong(&mut self.outbox, payload);
                },
                Command::Numeric(code) => {
                    self.on_reply(q, code, payload);
                },
                Command::Error => {
                    self.close();
                },
                Command::Other => {},
            },
            _ => {},
        }
    }

    /// Takes in what the transport reported. A cancellation ends the session
    /// from any state; a finished session ignores everything else. While
    /// connecting, anything but `Opened` counts as a failure to open. That,
    /// or any end before registration, is final; once registered, a missing
    /// or malformed reply costs only the fact it was to bring.
    pub fn handle(&mut self, event: &Event)
        ensures
            final(self)@ == old(self)@.handle(event@),
            old(self)@.wf() ==> final(self)@.wf(),
    {
        proof {
            lemma_handle_wf(self@, event@);
        }
        if let Event::Cancelled = event {
            self.close();
            self.cancelled = true;
            return;
        }
        if self.is_finished() {
            return;
        }
        if let State::Connecting = self.state {
            match event {
                Event::Opened => {
                    self.outbox = build_handshake(&self.nick, &self.password);
                    self.state = State::HandshakeSent;
                },
                _ => {
                    self.fail(State::ConnectFailed);
                },
            }
            return;
        }
        match event {
            Event::Line(l) => match parse_line(l.as_slice()) {
                Some(line) => {
                    self.on_line(line.command, &line.payload);
                },
                None => {},
            },
            Event::IdleTimeout => match self.state {
                State::HandshakeSent => {
                    self.fail(State::HandshakeTimeout);
                },
                State::AwaitingReply(_) => {
                    self.state = State::Ready;
                },
                _ => {},
            },
            Event::BudgetExpired => {
                if let State::HandshakeSent = self.state {
                    self.fail(State::HandshakeTimeout);
                } else {
                    self.close();
                }
            },
            Event::RemoteClosed => {
                self.close();
            },
            Event::Certificate(c) => {
                if let State::AwaitingReply(Query::Certificate) = self.state {
                    self.facts.tls_cert_expiration_epoch = *c;
                    self.state = State::Ready;
                }
            },
            _ => {},
        }
    }

    /// Says what the transport should do next. Between two queries the next
    /// one goes out, in the fixed order; queued bytes are handed over before
    /// anything is read; a finished session asks to close the connection.
    pub fn poll(&mut self) -> (action: Action)
        ensures
            final(self)@ == old(self)@.poll().0,
            action@ == old(self)@.poll().1,
            old(self)@.wf() ==> final(self)@.wf(),
    {
        proof {
            lemma_poll_wf(self@);
        }
        let between = match self.state {
            State::Registered => true,
            State::Ready => true,
            _ => false,
        };
        if between {
            if self.asked == 0 {
                self.state = State::AwaitingReply(Query::Uptime);
                self.asked = 1;
                append(&mut self.outbox, &vec![83u8, 84u8, 65u8, 84u8, 83u8, 32u8, 117u8, 13u8, 10u8]);
            } else if self.asked == 1 {
                self.state = State::AwaitingReply(Query::Users);
                self.asked = 2;
                append(&mut self.outbox, &vec![76u8, 85u8, 83u8, 69u8, 82u8, 83u8, 13u8, 10u8]);
            } else if self.asked == 2 && self.secure {
                self.state = State::AwaitingReply(Query::Certificate);
                self.asked = 3;
                proof {
                    assert(self.outbox@ + Seq::<u8>::empty() =~= self.outbox@);
                }
            } else {
                self.state = State::Closed;
            }
        }
        if self.outbox.len() > 0 {
            let mut bytes: Vec<u8> = Vec::new();
            std::mem::swap(&mut bytes, &mut self.outbox);
            return Action::Send(bytes);
        }
        match self.state {
            State::Connecting => Action::Open,
            State::HandshakeSent => Action::Read,
            State::AwaitingReply(q) => match q {
                Query::Certificate => Action::InspectCertificate,
                _ => Action::Read,
            },
            _ => Action::Finish,
        }
    }

    /// How the scrape ended: unreachable where the transport did not open,
    /// a failed handshake where registration was not confirmed, else the
    /// facts, complete or partial. Nothing for a cancelled session or one
    /// that still runs.
    pub fn outcome(&self) -> (out: Option<ScrapeOutcome>)
        ensures
            out == self@.outcome(),
    {
        if self.cancelled {
            return None;
        }
        match self.state {
            State::ConnectFailed => Some(ScrapeOutcome::Unreachable),
            State::HandshakeTimeout => Some(ScrapeOutcome::HandshakeFailed),
            State::Closed => {
                if !self.registered {
                    Some(ScrapeOutcome::HandshakeFailed)
                } else if self.facts.is_complete(self.secure) {
                    Some(ScrapeOutcome::Complete(self.facts))
                } else {
                    Some(ScrapeOutcome::Partial(self.facts))
                }
            },
            _ => None,
        }
    }
}

/// Taking in an event keeps a session well-formed.
pub proof fn lemma_handle_wf(s: SessionView, event: EventView)
    ensures
        s.wf() ==> s.handle(event).wf(),
{
}

/// Asking for the next action keeps a session well-formed.
pub proof fn lemma_poll_wf(s: SessionView)
    ensures
        s.wf() ==> s.poll().0.wf(),
{
}

} // verus!
