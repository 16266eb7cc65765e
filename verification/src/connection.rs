use vstd::prelude::*;
use vstd::string::*;
use crate::config::Config;
use crate::framer::frame_status;
use crate::framer::has_terminator;
use crate::framer::MAX_REQUEST_SIZE;
use crate::framer::FrameStatus;
use crate::framer::RequestFramer;
use crate::handlers::bad_request;
use crate::handlers::content_too_large;
use crate::handlers::file_bytes;
use crate::handlers::method_not_allowed;
use crate::handlers::not_found;
use crate::handlers::notice;
use crate::handlers::page;
use crate::handlers::request_timeout;
use crate::request::parse_request;
use crate::request::parsed;
use crate::response::HTTPStatus;
use crate::router::Handler;
use crate::router::RouteTable;
use crate::text::chars_of;
use crate::text::str_eq;
use crate::util::confined;
use crate::util::forbidden;
use crate::util::is_forbidden;
use crate::util::names;
use crate::util::sanitize_path;

verus! {

/// Where a connection stands between two steps of its handler.
///
/// A request is awaited in `AwaitingRequest`; its header block is read in
/// `AwaitingReadiness` and `AwaitingData`, by turns; it is dispatched in `ResolvingRoot`
/// and `ReadingFile`, which only a request for a file passes through; `Responding` lasts
/// while the response is sent. A connection that is kept alive goes from `Responding`
/// straight back to `AwaitingReadiness`: waiting for the next request is the same
/// readiness wait, with a fresh deadline. `Closing` is final.
#[derive(Copy, Clone, Debug, PartialEq, Eq)]
pub enum Phase {
    /// Admitted; nothing has been asked of the peer yet.
    AwaitingRequest,
    /// Waiting for the socket to become readable.
    AwaitingReadiness,
    /// The socket is readable; one read is under way.
    AwaitingData,
    /// The request names a file; the root directory is being resolved.
    ResolvingRoot,
    /// The file is being read.
    ReadingFile,
    /// A response is being sent.
    Responding,
    /// The connection is to be released.
    Closing,
}

/// What the handler's surroundings report back after doing what they were asked to.
pub enum Event {
    /// The connection was admitted and its handler has started.
    Accepted,
    /// The wait ended with nothing to read.
    TimedOut,
    /// The wait failed.
    WaitFailed,
    /// The socket has become readable.
    Readable,
    /// The read gave these bytes.
    Received { data: Vec<u8> },
    /// The read found the peer gone.
    PeerClosed,
    /// The root directory has these components in canonical form, or cannot be resolved.
    RootResolved { root: Option<Vec<String>> },
    /// The file holds these bytes, or cannot be read.
    FileRead { contents: Option<Vec<u8>> },
    /// The response has been sent.
    Sent,
}

/// An `Event` as plain values.
pub enum EventModel {
    Accepted,
    TimedOut,
    WaitFailed,
    Readable,
    Received { data: Seq<u8> },
    PeerClosed,
    RootResolved { root: Option<Seq<Seq<char>>> },
    FileRead { contents: Option<Seq<u8>> },
    Sent,
}

impl View for Event {
    type V = EventModel;

    open spec fn view(&self) -> EventModel {
        match self {
            Event::Accepted => EventModel::Accepted,
            Event::TimedOut => EventModel::TimedOut,
            Event::WaitFailed => EventModel::WaitFailed,
            Event::Readable => EventModel::Readable,
            Event::Received { data } => EventModel::Received { data: data@ },
            Event::PeerClosed => EventModel::PeerClosed,
            Event::RootResolved { root } => EventModel::RootResolved {
                root: match root {
                    Some(components) => Some(names(components@)),
                    None => None,
                },
            },
            Event::FileRead { contents } => EventModel::FileRead {
                contents: match contents {
                    Some(bytes) => Some(bytes@),
                    None => None,
                },
            },
            Event::Sent => EventModel::Sent,
        }
    }
}

/// What the handler asks its surroundings to do next.
#[derive(Debug)]
pub enum Action {
    /// Wait until the socket is readable, for at most so many seconds.
    Wait { seconds: u64 },
    /// Read once from the socket, at most so many bytes.
    Read { limit: usize },
    /// Resolve the configured root directory to its canonical form.
    ResolveRoot,
    /// Read the file with these path components.
    ReadFile { path: Vec<String> },
    /// Send these bytes and, if `half_close` is set, shut down the sending side
    /// afterwards, so that the peer can still read them when the connection closes.
    Send { response: Vec<u8>, half_close: bool },
    /// Release the connection and count it out.
    Close,
}

/// An `Action` as plain values.
pub enum ActionModel {
    Wait { seconds: u64 },
    Read { limit: usize },
    ResolveRoot,
    ReadFile { path: Seq<Seq<char>> },
    Send { response: Seq<u8>, half_close: bool },
    Close,
}

impl View for Action {
    type V = ActionModel;

    open spec fn view(&self) -> ActionModel {
        match self {
            Action::Wait { seconds } => ActionModel::Wait { seconds: *seconds },
            Action::Read { limit } => ActionModel::Read { limit: *limit },
            Action::ResolveRoot => ActionModel::ResolveRoot,
            Action::ReadFile { path } => ActionModel::ReadFile { path: names(path@) },
            Action::Send { response, half_close } => ActionModel::Send {
                response: response@,
                half_close: *half_close,
            },
            Action::Close => ActionModel::Close,
        }
    }
}

/// The state of one connection as plain values.
pub struct ConnectionModel {
    pub phase: Phase,
    /// The bytes accumulated for the request that is being read.
    pub buffer: Seq<u8>,
    /// The size at which a request is too large.
    pub limit: usize,
    /// Whether the server keeps connections alive at all.
    pub keep_alive: bool,
    /// The seconds that a request may take to arrive.
    pub timeout: u64,
    /// The time at which the current request began to be awaited.
    pub started: u64,
    /// The path of the request that is being dispatched.
    pub path: Seq<char>,
    /// Whether the connection stays open after the response that is being prepared or sent.
    pub persist: bool,
}

/// The response that reports a timeout.
pub open spec fn timeout_notice() -> Seq<u8> {
    notice(HTTPStatus::RequestTimeout, "408 Request Timeout")
}

/// The response that refuses an oversized request.
pub open spec fn too_large_notice() -> Seq<u8> {
    notice(HTTPStatus::ContentTooLarge, "413 Content Too Large")
}

/// The response that refuses a method.
pub open spec fn method_notice() -> Seq<u8> {
    notice(HTTPStatus::MethodNotAllowed, "405 Method Not Allowed")
}

/// The response that refuses a path.
pub open spec fn bad_request_notice() -> Seq<u8> {
    notice(HTTPStatus::BadRequest, "400 Bad Request")
}

/// The response for a file that is not there.
pub open spec fn not_found_notice() -> Seq<u8> {
    notice(HTTPStatus::NotFound, "404 Not Found")
}

/// Whether the deadline of the current request has passed at time `now`. The deadline
/// is `started + timeout`; a clock that reads less than `started` has not passed it.
pub open spec fn expired(c: ConnectionModel, now: u64) -> bool {
    now - c.started > c.timeout
}

/// The seconds left until the deadline, for a deadline that has not passed.
pub open spec fn remaining(c: ConnectionModel, now: u64) -> u64 {
    if now <= c.started {
        c.timeout
    } else {
        (c.timeout - (now - c.started)) as u64
    }
}

/// Releasing the connection.
pub open spec fn close(c: ConnectionModel) -> (ConnectionModel, ActionModel) {
    (ConnectionModel { phase: Phase::Closing, ..c }, ActionModel::Close)
}

/// Starting on a new request at time `now`: the accumulator is emptied and the deadline
/// is set anew.
pub open spec fn begin(c: ConnectionModel, now: u64) -> (ConnectionModel, ActionModel) {
    (
        ConnectionModel {
            phase: Phase::AwaitingReadiness,
            buffer: Seq::empty(),
            started: now,
            path: Seq::empty(),
            persist: false,
            ..c
        },
        ActionModel::Wait { seconds: c.timeout },
    )
}

/// Sending a response.
pub open spec fn reply(c: ConnectionModel, response: Seq<u8>, half_close: bool, persist: bool) -> (
    ConnectionModel,
    ActionModel,
) {
    (
        ConnectionModel { phase: Phase::Responding, persist, ..c },
        ActionModel::Send { response, half_close },
    )
}

/// Dispatching the request that the accumulated bytes hold.
pub open spec fn dispatch(c: ConnectionModel, routes: Map<Seq<char>, Handler>) -> (
    ConnectionModel,
    ActionModel,
) {
    match parsed(c.buffer) {
        None => close(c),
        Some(request) => {
            let persist = c.keep_alive && request.keep_alive;
            if request.method != "GET"@ && request.method != "POST"@ {
                reply(c, method_notice(), false, false)
            } else if routes.contains_key(request.path) {
                reply(c, routes[request.path].spec_respond(), false, persist)
            } else if is_forbidden(request.path) {
                reply(c, bad_request_notice(), false, false)
            } else {
                (
                    ConnectionModel {
                        phase: Phase::ResolvingRoot,
                        path: request.path,
                        persist,
                        ..c
                    },
                    ActionModel::ResolveRoot,
                )
            }
        },
    }
}

/// Taking in the bytes of one read.
pub open spec fn receive(
    c: ConnectionModel,
    data: Seq<u8>,
    now: u64,
    routes: Map<Seq<char>, Handler>,
) -> (ConnectionModel, ActionModel) {
    let c = ConnectionModel { buffer: c.buffer + data, ..c };
    match frame_status(c.buffer, c.limit as nat) {
        FrameStatus::TooLarge => reply(c, too_large_notice(), true, false),
        FrameStatus::Complete => dispatch(c, routes),
        FrameStatus::Incomplete => {
            if expired(c, now) {
                reply(c, timeout_notice(), false, false)
            } else {
                (
                    ConnectionModel { phase: Phase::AwaitingReadiness, ..c },
                    ActionModel::Wait { seconds: remaining(c, now) },
                )
            }
        },
    }
}

/// Confining the requested path once the root directory is known.
pub open spec fn locate(c: ConnectionModel, root: Option<Seq<Seq<char>>>) -> (
    ConnectionModel,
    ActionModel,
) {
    match confined(c.path, root) {
        None => reply(c, bad_request_notice(), false, false),
        Some(target) => (
            ConnectionModel { phase: Phase::ReadingFile, ..c },
            ActionModel::ReadFile { path: target },
        ),
    }
}

/// Answering with the file, or with its absence.
pub open spec fn serve(c: ConnectionModel, contents: Option<Seq<u8>>) -> (
    ConnectionModel,
    ActionModel,
) {
    match contents {
        Some(bytes) => reply(c, page(bytes), false, c.persist),
        None => reply(c, not_found_notice(), false, c.persist),
    }
}

/// The state that follows `c` on `event` at time `now`, and what is to be done next.
/// An event that does not answer what was last asked for closes the connection.
pub open spec fn transition(
    c: ConnectionModel,
    event: EventModel,
    now: u64,
    routes: Map<Seq<char>, Handler>,
) -> (ConnectionModel, ActionModel) {
    match c.phase {
        Phase::AwaitingRequest => match event {
            EventModel::Accepted => begin(c, now),
            _ => close(c),
        },
        Phase::AwaitingReadiness => match event {
            EventModel::TimedOut => reply(c, timeout_notice(), false, false),
            EventModel::Readable => {
                if expired(c, now) {
                    reply(c, timeout_notice(), false, false)
                } else {
                    (
                        ConnectionModel { phase: Phase::AwaitingData, ..c },
                        ActionModel::Read { limit: c.limit },
                    )
                }
            },
            _ => close(c),
        },
        Phase::AwaitingData => match event {
            EventModel::Received { data } => {
                if data.len() == 0 {
                    close(c)
                } else {
                    receive(c, data, now, routes)
                }
            },
            _ => close(c),
        },
        Phase::ResolvingRoot => match event {
            EventModel::RootResolved { root } => locate(c, root),
            _ => close(c),
        },
        Phase::ReadingFile => match event {
            EventModel::FileRead { contents } => serve(c, contents),
            _ => close(c),
        },
        Phase::Responding => match event {
            EventModel::Sent => {
                if c.persist {
                    begin(c, now)
                } else {
                    close(c)
                }
            },
            _ => close(c),
        },
        Phase::Closing => close(c),
    }
}

/// The state in which the handler of a newly admitted connection starts.
pub open spec fn initial(keep_alive: bool, timeout: u64, limit: usize) -> ConnectionModel {
    ConnectionModel {
        phase: Phase::AwaitingRequest,
        buffer: Seq::empty(),
        limit,
        keep_alive,
        timeout,
        started: 0,
        path: Seq::empty(),
        persist: false,
    }
}

/// The handler of one connection: it decides, and its surroundings do the waiting,
/// reading and sending. Each call of `step` takes what happened and says what to do next.
pub struct Connection {
    phase: Phase,
    framer: RequestFramer,
    keep_alive: bool,
    timeout: u64,
    started: u64,
    path: String,
    persist: bool,
}

impl View for Connection {
    type V = ConnectionModel;

    closed spec fn view(&self) -> ConnectionModel {
        ConnectionModel {
            phase: self.phase,
            buffer: self.framer.bytes(),
            limit: self.framer.spec_limit(),
            keep_alive: self.keep_alive,
            timeout: self.timeout,
            started: self.started,
            path: self.path@,
            persist: self.persist,
        }
    }
}

impl Connection {
    /// The handler of a newly admitted connection. `keep_alive` says whether the server
    /// keeps connections alive at all, `timeout_seconds` how long a request may take to
    /// arrive, and `max_request_size` at what size a request is refused.
    pub fn new(keep_alive: bool, timeout_seconds: u64, max_request_size: usize) -> (c: Connection)
        ensures
            c@ == initial(keep_alive, timeout_seconds, max_request_size),
    {
        Connection {
            phase: Phase::AwaitingRequest,
            framer: RequestFramer::new(max_request_size),
            keep_alive,
            timeout: timeout_seconds,
            started: 0,
            path: String::new(),
            persist: false,
        }
    }

    /// The handler of a newly admitted connection on a server with these settings.
    pub fn for_config(config: &Config) -> (c: Connection)
        ensures
            c@ == initial(config.keep_alive, config.timeout_seconds, MAX_REQUEST_SIZE),
    {
        Connection::new(config.keep_alive, config.timeout_seconds, MAX_REQUEST_SIZE)
    }

    /// Where the connection stands.
    pub fn phase(&self) -> (phase: Phase)
        ensures
            phase == self@.phase,
    {
        self.phase
    }

    /// Whether the connection is to be released.
    pub fn is_closing(&self) -> (closing: bool)
        ensures
            closing == (self@.phase is Closing),
    {
        match self.phase {
            Phase::Closing => true,
            _ => false,
        }
    }

    /// The bytes accumulated for the current request.
    pub fn buffered(&self) -> (bytes: &[u8])
        ensures
            bytes@ == self@.buffer,
    {
        self.framer.buffer()
    }

    fn close(&mut self) -> (action: Action)
        ensures
            (final(self)@, action@) == close(old(self)@),
    {
        self.phase = Phase::Closing;
        Action::Close
    }

    fn begin(&mut self, now: u64) -> (action: Action)
        ensures
            (final(self)@, action@) == begin(old(self)@, now),
    {
        self.phase = Phase::AwaitingReadiness;
        self.framer.reset();
        self.started = now;
        self.path = String::new();
        self.persist = false;
        Action::Wait { seconds: self.timeout }
    }

    fn reply(&mut self, response: Vec<u8>, half_close: bool, persist: bool) -> (action: Action)
        ensures
            (final(self)@, action@) == reply(old(self)@, response@, half_close, persist),
    {
        self.phase = Phase::Responding;
        self.persist = persist;
        Action::Send { response, half_close }
    }

    fn is_expired(&self, now: u64) -> (late: bool)
        ensures
            late == expired(self@, now),
    {
        now > self.started && now - self.started > self.timeout
    }

    fn dispatch(&mut self, routes: &RouteTable) -> (action: Action)
        ensures
            (final(self)@, action@) == dispatch(old(self)@, routes@),
    {
        let request = match parse_request(self.framer.buffer()) {
            Some(request) => request,
            None => {
                return self.close();
            },
        };
        let persist = self.keep_alive && request.keep_alive;
        if !str_eq(request.method.as_str(), "GET") && !str_eq(request.method.as_str(), "POST") {
            return self.reply(method_not_allowed(), false, false);
        }
        match routes.get(request.path.as_str()) {
            Some(handler) => {
                return self.reply(handler.respond(), false, persist);
            },
            None => {},
        }
        let path = chars_of(request.path.as_str());
        if forbidden(path.as_slice()) {
            return self.reply(bad_request(), false, false);
        }
        self.phase = Phase::ResolvingRoot;
        self.path = request.path;
        self.persist = persist;
        Action::ResolveRoot
    }

    fn receive(&mut self, data: &[u8], now: u64, routes: &RouteTable) -> (action: Action)
        ensures
            (final(self)@, action@) == receive(old(self)@, data@, now, routes@),
    {
        match self.framer.push(data) {
            FrameStatus::TooLarge => self.reply(content_too_large(), true, false),
            FrameStatus::Complete => self.dispatch(routes),
            FrameStatus::Incomplete => {
                if self.is_expired(now) {
                    self.reply(request_timeout(), false, false)
                } else {
                    self.phase = Phase::AwaitingReadiness;
                    let seconds: u64 = if now <= self.started {
                        self.timeout
                    } else {
                        self.timeout - (now - self.started)
                    };
                    Action::Wait { seconds }
                }
            },
        }
    }

    fn locate(&mut self, root: Option<Vec<String>>) -> (action: Action)
        ensures
            (final(self)@, action@) == locate(
                old(self)@,
                match root {
                    Some(components) => Some(names(components@)),
                    None => None,
                },
            ),
    {
        let safe = match &root {
            Some(components) => sanitize_path(self.path.as_str(), Some(components)),
            None => sanitize_path(self.path.as_str(), None),
        };
        match safe {
            Some(path) => {
                self.phase = Phase::ReadingFile;
                Action::ReadFile { path }
            },
            None => self.reply(bad_request(), false, false),
        }
    }

    fn serve(&mut self, contents: Option<Vec<u8>>) -> (action: Action)
        ensures
            (final(self)@, action@) == serve(
                old(self)@,
                match contents {
                    Some(bytes) => Some(bytes@),
                    None => None,
                },
            ),
    {
        let persist = self.persist;
        match contents {
            Some(bytes) => self.reply(file_bytes(bytes.as_slice()), false, persist),
            None => self.reply(not_found(), false, persist),
        }
    }

    /// Takes the outcome of what was last asked for, at time `now` in seconds on a clock
    /// that does not run backwards, and says what to do next.
    pub fn step(&mut self, event: Event, now: u64, routes: &RouteTable) -> (action: Action)
        ensures
            (final(self)@, action@) == transition(old(self)@, event@, now, routes@),
    {
        match self.phase {
            Phase::AwaitingRequest => match event {
                Event::Accepted => self.begin(now),
                _ => self.close(),
            },
            Phase::AwaitingReadiness => match event {
                Event::TimedOut => self.reply(request_timeout(), false, false),
                Event::Readable => {
                    if self.is_expired(now) {
                        self.reply(request_timeout(), false, false)
                    } else {
                        self.phase = Phase::AwaitingData;
                        Action::Read { limit: self.framer.limit() }
                    }
                },
                _ => self.close(),
            },
            Phase::AwaitingData => match event {
                Event::Received { data } => {
                    if data.len() == 0 {
                        self.close()
                    } else {
                        self.receive(data.as_slice(), now, routes)
                    }
                },
                _ => self.close(),
            },
            Phase::ResolvingRoot => match event {
                Event::RootResolved { root } => self.locate(root),
                _ => self.close(),
            },
            Phase::ReadingFile => match event {
                Event::FileRead { contents } => self.serve(contents),
                _ => self.close(),
            },
            Phase::Responding => match event {
                Event::Sent => {
                    if self.persist {
                        self.begin(now)
                    } else {
                        self.close()
                    }
                },
                _ => self.close(),
            },
            Phase::Closing => self.close(),
        }
    }
}

/// `Closing` is final: whatever happens, the connection stays there and is to be released.
pub proof fn lemma_closing_is_final(
    c: ConnectionModel,
    event: EventModel,
    now: u64,
    routes: Map<Seq<char>, Handler>,
)
    requires
        c.phase is Closing,
    ensures
        transition(c, event, now, routes) == (c, ActionModel::Close),
{
}

/// The connection is to be released exactly when it has come to `Closing`: no step
/// releases a connection that goes on, and none goes to `Closing` without releasing it.
pub proof fn lemma_released_when_closing(
    c: ConnectionModel,
    event: EventModel,
    now: u64,
    routes: Map<Seq<char>, Handler>,
)
    ensures
        transition(c, event, now, routes).1 is Close <==> transition(
            c,
            event,
            now,
            routes,
        ).0.phase is Closing,
{
}

/// A read that brings the accumulated bytes to the limit, or beyond it, is answered
/// with 413 and a half-close, terminator or not, and the connection does not go on.
pub proof fn lemma_limit_reached(
    c: ConnectionModel,
    data: Seq<u8>,
    now: u64,
    routes: Map<Seq<char>, Handler>,
)
    requires
        c.phase is AwaitingData,
        data.len() > 0,
        c.buffer.len() + data.len() >= c.limit,
    ensures
        transition(c, EventModel::Received { data }, now, routes).1 == (ActionModel::Send {
            response: too_large_notice(),
            half_close: true,
        }),
        !transition(c, EventModel::Received { data }, now, routes).0.persist,
{
}

/// A read that leaves the accumulated bytes under the limit, be it by one byte, and
/// with the terminator among them, leads to the dispatch of the request.
pub proof fn lemma_under_limit_dispatched(
    c: ConnectionModel,
    data: Seq<u8>,
    now: u64,
    routes: Map<Seq<char>, Handler>,
)
    requires
        c.phase is AwaitingData,
        data.len() > 0,
        c.buffer.len() + data.len() < c.limit,
        has_terminator(c.buffer + data),
    ensures
        transition(c, EventModel::Received { data }, now, routes) == dispatch(
            ConnectionModel { buffer: c.buffer + data, ..c },
            routes,
        ),
{
}

/// No wait outlasts the deadline: on a clock that has not run backwards, the seconds
/// to wait end at or before `started + timeout`.
pub proof fn lemma_wait_ends_by_deadline(
    c: ConnectionModel,
    event: EventModel,
    now: u64,
    routes: Map<Seq<char>, Handler>,
)
    requires
        transition(c, event, now, routes).1 is Wait,
        transition(c, event, now, routes).0.started <= now,
    ensures
        now + transition(c, event, now, routes).1->seconds <= transition(
            c,
            event,
            now,
            routes,
        ).0.started + transition(c, event, now, routes).0.timeout,
{
}

/// A connection is kept open after a response only if the server keeps connections
/// alive: with that setting off, the step after a response has been sent releases it.
pub proof fn lemma_no_keep_alive_when_disabled(
    c: ConnectionModel,
    event: EventModel,
    now: u64,
    routes: Map<Seq<char>, Handler>,
)
    requires
        !c.keep_alive,
        !c.persist,
    ensures
        !transition(c, event, now, routes).0.keep_alive,
        !transition(c, event, now, routes).0.persist,
{
}

} // verus!
