//! The bookkeeping of a server: handlers and their responses, the queue of
//! work, the table of open connections, and the steps that move a request
//! from a connection to a handler and its response back.
//!
//! Nothing here touches a socket or a thread. A connection is a value of any
//! type `C` that the caller hands in and gets back.

use crate::http::{create_response, response_text, Method, Response, StatusCode};
use crate::parsing::{parse_http_request, request_of};
use crate::router::Router;
use std::collections::{HashMap, VecDeque};
use vstd::prelude::*;

verus! {

broadcast use vstd::std_specs::hash::group_hash_axioms;

/// A task's completion status as plain values.
pub struct TaskResponseView {
    pub status: StatusCode,
    pub content: Option<Seq<char>>,
}

/// Internal representation of a task's completion status.
///
/// This can be used to represent the execution of a route handler (providing
/// a status code and content) or a generic task run in the task queue, whose
/// status can be represented using HTTP status codes.
pub struct TaskResponse {
    status: StatusCode,
    content: Option<String>,
}

impl View for TaskResponse {
    type V = TaskResponseView;

    closed spec fn view(&self) -> TaskResponseView {
        TaskResponseView {
            status: self.status,
            content: match self.content {
                Some(c) => Some(c@),
                None => None,
            },
        }
    }
}

impl Response for TaskResponse {
}

impl TaskResponse {
    /// What a request for a path without a handler is answered with.
    pub open spec fn not_found_view() -> TaskResponseView {
        TaskResponseView { status: StatusCode::NotFound, content: None }
    }

    /// What a message that cannot be parsed is answered with.
    pub open spec fn parse_error_view() -> TaskResponseView {
        TaskResponseView { status: StatusCode::BadRequest, content: None }
    }

    /// A response with the given status and content.
    pub fn new(status: StatusCode, content: Option<String>) -> (r: TaskResponse)
        ensures
            r@ == (TaskResponseView {
                status,
                content: match content {
                    Some(c) => Some(c@),
                    None => None,
                },
            }),
    {
        TaskResponse { status, content }
    }

    /// The response to a request for a path without a handler.
    pub fn not_found() -> (r: TaskResponse)
        ensures
            r@ == TaskResponse::not_found_view(),
    {
        TaskResponse { status: StatusCode::NotFound, content: None }
    }

    /// The response to a message that cannot be parsed.
    pub fn parse_error() -> (r: TaskResponse)
        ensures
            r@ == TaskResponse::parse_error_view(),
    {
        TaskResponse { status: StatusCode::BadRequest, content: None }
    }

    /// The status of the response.
    pub fn status(&self) -> (s: StatusCode)
        ensures
            s == self@.status,
    {
        self.status
    }

    /// The content of the response, if it has any.
    pub fn content(&self) -> (c: Option<&str>)
        ensures
            match c {
                Some(t) => self@.content == Some(t@),
                None => self@.content is None,
            },
    {
        match &self.content {
            Some(c) => Some(c.as_str()),
            None => None,
        }
    }

    /// The text that is written to the connection for this response.
    pub fn to_text(&self) -> (r: String)
        ensures
            r@ == response_text(self@.status, self@.content),
    {
        create_response(self.status, self.content())
    }
}

/// A `HeliumTask` represents the behaviour of any task that can be handled by
/// a worker: it produces a response. Handlers are registered once and shared
/// read-only afterwards, so `execute` takes `&self`.
pub trait HeliumTask {
    /// Produces the response of the task. Nothing is asked of it and nothing
    /// is promised: what a handler returns is its own business.
    fn execute(&self) -> TaskResponse;
}

/// A handler made of a function that takes nothing and returns the content
/// of a successful response.
pub struct FnTask<F: Fn() -> String> {
    run: F,
}

impl<F: Fn() -> String> FnTask<F> {
    #[verifier::type_invariant]
    spec fn callable(self) -> bool {
        call_requires(self.run, ())
    }

    /// `text` is something the function may return.
    pub closed spec fn yields(&self, text: Seq<char>) -> bool {
        exists|s: String| call_ensures(self.run, (), s) && s@ == text
    }

    /// Wraps a function that can be called without any condition.
    pub fn new(run: F) -> (r: Self)
        requires
            call_requires(run, ()),
        ensures
            forall|t: Seq<char>|
                r.yields(t) <==> exists|s: String| call_ensures(run, (), s) && s@ == t,
    {
        FnTask { run }
    }
}

impl<F: Fn() -> String> HeliumTask for FnTask<F> {
    /// Calls the function once. The response has the status `OK` and the
    /// returned text as its content.
    fn execute(&self) -> (r: TaskResponse)
        ensures
            r@.status == StatusCode::OK,
            r@.content matches Some(text) && self.yields(text),
    {
        proof {
            use_type_invariant(self);
        }
        let text = (self.run)();
        TaskResponse::new(StatusCode::OK, Some(text))
    }
}

/// A unit of work: the bytes read from a connection, with the key under
/// which the connection waits for its response.
pub struct WorkItem {
    pub key: u32,
    pub bytes: Vec<u8>,
}

/// The queue of work. Items leave it in the order in which they came.
pub struct TaskQueue {
    items: VecDeque<WorkItem>,
}

impl View for TaskQueue {
    type V = Seq<WorkItem>;

    closed spec fn view(&self) -> Seq<WorkItem> {
        self.items@
    }
}

impl TaskQueue {
    /// An empty queue.
    pub fn new() -> (q: Self)
        ensures
            q@ == Seq::<WorkItem>::empty(),
    {
        TaskQueue { items: VecDeque::new() }
    }

    /// Puts an item at the end of the queue.
    pub fn push(&mut self, item: WorkItem)
        ensures
            final(self)@ == old(self)@.push(item),
    {
        self.items.push_back(item);
    }

    /// Takes the oldest item out of the queue. The item is handed out once:
    /// after the call the queue holds it no more.
    pub fn pop(&mut self) -> (r: Option<WorkItem>)
        ensures
            match r {
                Some(item) => old(self)@.len() > 0 && item == old(self)@[0] && final(self)@ == old(
                    self,
                )@.drop_first(),
                None => old(self)@.len() == 0 && final(self)@ == old(self)@,
            },
    {
        let r = self.items.pop_front();
        proof {
            if r is Some {
                assert(self.items@ =~= old(self).items@.drop_first());
            }
        }
        r
    }

    /// The number of items that wait.
    pub fn len(&self) -> (n: usize)
        ensures
            n == self@.len(),
    {
        self.items.len()
    }
}

/// A number drawn from the thread-local generator of the `rand` crate
/// (`rand::random`). Nothing is claimed of the number: two calls may give the
/// same one. The generator is seeded from the operating system when a thread
/// first uses it, and `rand` panics if the system cannot provide the seed.
#[verifier::external_body]
fn random_key() -> (key: u32) {
    rand::random::<u32>()
}

/// The table of open connections, each under the key its work item carries.
pub struct Correlator<C> {
    streams: HashMap<u32, C>,
}

impl<C> View for Correlator<C> {
    type V = Map<u32, C>;

    closed spec fn view(&self) -> Map<u32, C> {
        self.streams@
    }
}

impl<C> Correlator<C> {
    /// An empty table.
    pub fn new() -> (t: Self)
        ensures
            t@ == Map::<u32, C>::empty(),
    {
        Correlator { streams: HashMap::new() }
    }

    /// Stores a connection under `key`. A connection that was stored under
    /// the same key is dropped, and will get no response.
    pub fn insert(&mut self, key: u32, conn: C)
        ensures
            final(self)@ == old(self)@.insert(key, conn),
    {
        self.streams.insert(key, conn);
    }

    /// Stores a connection under a key drawn at random and returns the key.
    /// Keys are not checked against those in use: on a collision the older
    /// connection is dropped, as `insert` says.
    pub fn track(&mut self, conn: C) -> (key: u32)
        ensures
            final(self)@ == old(self)@.insert(key, conn),
    {
        let key = random_key();
        self.insert(key, conn);
        key
    }

    /// Takes the connection stored under `key` out of the table. Where there
    /// is none, the table is left as it is.
    pub fn take(&mut self, key: u32) -> (r: Option<C>)
        ensures
            match r {
                Some(conn) => old(self)@.contains_key(key) && conn == old(self)@[key]
                    && final(self)@ == old(self)@.remove(key),
                None => !old(self)@.contains_key(key) && final(self)@ == old(self)@,
            },
    {
        let r = self.streams.remove(&key);
        proof {
            if r is None {
                assert(self.streams@ =~= old(self).streams@);
            }
        }
        r
    }

    /// Finds the connection that a response is for: takes the connection
    /// under `key` out of the table and returns it with the text to write to
    /// it. Where no connection waits under `key`, the response is dropped and
    /// the table is left as it is.
    pub fn deliver(&mut self, key: u32, response: &TaskResponse) -> (r: Option<(C, String)>)
        ensures
            match r {
                Some((conn, text)) => {
                    &&& old(self)@.contains_key(key)
                    &&& conn == old(self)@[key]
                    &&& text@ == response_text(response@.status, response@.content)
                    &&& final(self)@ == old(self)@.remove(key)
                },
                None => !old(self)@.contains_key(key) && final(self)@ == old(self)@,
            },
    {
        match self.take(key) {
            Some(conn) => Some((conn, response.to_text())),
            None => None,
        }
    }

    /// The number of connections that wait for a response.
    pub fn len(&self) -> (n: usize)
        ensures
            n == self@.len(),
    {
        self.streams.len()
    }
}

/// The text that bytes hold as UTF-8, and `None` for bytes that are not
/// UTF-8: what `std::str::from_utf8` makes of them.
pub uninterp spec fn utf8_text(bytes: Seq<u8>) -> Option<Seq<char>>;

/// `std::str::from_utf8`, with its error dropped. The function checks that
/// the bytes are valid UTF-8 and returns them as a string, or fails; what it
/// returns depends on the bytes alone, which is all that is claimed here.
#[verifier::external_body]
fn decode(bytes: &[u8]) -> (r: Option<&str>)
    ensures
        match r {
            Some(text) => utf8_text(bytes@) == Some(text@),
            None => utf8_text(bytes@) is None,
        },
{
    std::str::from_utf8(bytes).ok()
}

/// Whether `response` answers a message under the given table of handlers.
/// `text` is the message, or `None` where what was read is no text. A message
/// that is no text or cannot be parsed gets the parse error response, a
/// request without a handler the not-found response, and any other request
/// what its handler returned.
pub open spec fn answers<H: HeliumTask>(
    routes: Map<(Method, Seq<char>), H>,
    text: Option<Seq<char>>,
    response: TaskResponse,
) -> bool {
    match text {
        None => response@ == TaskResponse::parse_error_view(),
        Some(message) => match request_of(message) {
            Err(_) => response@ == TaskResponse::parse_error_view(),
            Ok(request) => {
                let key = (request.method, request.path);
                if routes.contains_key(key) {
                    call_ensures(H::execute, (&routes[key],), response)
                } else {
                    response@ == TaskResponse::not_found_view()
                }
            },
        },
    }
}

/// Answers a message: parses it, finds the handler for its method and path,
/// and executes the handler once. `text` is `None` where what was read from
/// the connection is no text.
pub fn answer<H: HeliumTask>(router: &Router<H>, text: Option<&str>) -> (response: TaskResponse)
    ensures
        answers(
            router@,
            match text {
                Some(t) => Some(t@),
                None => None,
            },
            response,
        ),
{
    let message = match text {
        Some(t) => t,
        None => {
            return TaskResponse::parse_error();
        },
    };
    let request = match parse_http_request(message) {
        Ok(r) => r,
        Err(_) => {
            return TaskResponse::parse_error();
        },
    };
    match router.lookup(request.method(), request.path()) {
        Some(handler) => handler.execute(),
        None => TaskResponse::not_found(),
    }
}

/// What a worker does with one item: reads its bytes as UTF-8 and answers
/// the message. The response carries the key of the item.
pub fn respond<H: HeliumTask>(router: &Router<H>, item: &WorkItem) -> (out: (u32, TaskResponse))
    ensures
        out.0 == item.key,
        answers(router@, utf8_text(item.bytes@), out.1),
{
    (item.key, answer(router, decode(item.bytes.as_slice())))
}

/// A server as plain values.
pub struct ServerView<C, H> {
    pub max_threads: u32,
    pub queue: Seq<WorkItem>,
    pub streams: Map<u32, C>,
    pub routes: Map<(Method, Seq<char>), H>,
}

/// The state of a server: its handlers, the work that waits, and the
/// connections that wait for a response. Its methods are the steps of a
/// server that does one thing at a time; `into_parts` hands the parts to a
/// caller that runs them on threads of its own.
pub struct Server<C, H> {
    max_threads: u32,
    task_queue: TaskQueue,
    streams: Correlator<C>,
    handlers: Router<H>,
}

impl<C, H> View for Server<C, H> {
    type V = ServerView<C, H>;

    closed spec fn view(&self) -> ServerView<C, H> {
        ServerView {
            max_threads: self.max_threads,
            queue: self.task_queue@,
            streams: self.streams@,
            routes: self.handlers@,
        }
    }
}

impl<C, H: HeliumTask> Server<C, H> {
    /// A server for `max_threads` workers, with no handler, no work and no
    /// connection.
    pub fn new(max_threads: u32) -> (s: Self)
        ensures
            s@ == (ServerView::<C, H> {
                max_threads,
                queue: Seq::empty(),
                streams: Map::empty(),
                routes: Map::empty(),
            }),
    {
        Server {
            max_threads,
            task_queue: TaskQueue::new(),
            streams: Correlator::new(),
            handlers: Router::new(),
        }
    }

    /// The number of workers the server is meant to run.
    pub fn max_threads(&self) -> (n: u32)
        ensures
            n == self@.max_threads,
    {
        self.max_threads
    }

    /// Registers `handler` for `method` and `path`.
    pub fn route(&mut self, method: Method, path: String, handler: H)
        ensures
            final(self)@ == (ServerView {
                routes: old(self)@.routes.insert((method, path@), handler),
                ..old(self)@
            }),
    {
        self.handlers.register(method, path, handler);
    }

    /// Stores a connection under `key` and queues the bytes read from it.
    pub fn enqueue(&mut self, key: u32, conn: C, bytes: Vec<u8>)
        ensures
            final(self)@ == (ServerView {
                streams: old(self)@.streams.insert(key, conn),
                queue: old(self)@.queue.push(WorkItem { key, bytes }),
                ..old(self)@
            }),
    {
        self.streams.insert(key, conn);
        self.task_queue.push(WorkItem { key, bytes });
    }

    /// Takes in a connection and the bytes read from it: stores the
    /// connection under a key drawn at random and queues the bytes under the
    /// same key, which is returned.
    pub fn accept(&mut self, conn: C, bytes: Vec<u8>) -> (key: u32)
        ensures
            final(self)@ == (ServerView {
                streams: old(self)@.streams.insert(key, conn),
                queue: old(self)@.queue.push(WorkItem { key, bytes }),
                ..old(self)@
            }),
    {
        let key = self.streams.track(conn);
        self.task_queue.push(WorkItem { key, bytes });
        key
    }

    /// One step of a worker: takes the oldest item from the queue and
    /// answers it. `None` where no work waits.
    pub fn work(&mut self) -> (r: Option<(u32, TaskResponse)>)
        ensures
            final(self)@.max_threads == old(self)@.max_threads,
            final(self)@.streams == old(self)@.streams,
            final(self)@.routes == old(self)@.routes,
            match r {
                Some((key, response)) => {
                    &&& old(self)@.queue.len() > 0
                    &&& final(self)@.queue == old(self)@.queue.drop_first()
                    &&& key == old(self)@.queue[0].key
                    &&& answers(old(self)@.routes, utf8_text(old(self)@.queue[0].bytes@), response)
                },
                None => old(self)@.queue.len() == 0 && final(self)@.queue == old(self)@.queue,
            },
    {
        match self.task_queue.pop() {
            Some(item) => Some(respond(&self.handlers, &item)),
            None => None,
        }
    }

    /// Works until the queue is empty. Every item that waited is answered
    /// once, in the order of the queue, and none is left.
    pub fn drain(&mut self) -> (out: Vec<(u32, TaskResponse)>)
        ensures
            final(self)@ == (ServerView { queue: Seq::empty(), ..old(self)@ }),
            out@.len() == old(self)@.queue.len(),
            forall|i: int|
                0 <= i < out@.len() ==> {
                    &&& (#[trigger] out@[i]).0 == old(self)@.queue[i].key
                    &&& answers(
                        old(self)@.routes,
                        utf8_text(old(self)@.queue[i].bytes@),
                        out@[i].1,
                    )
                },
    {
        let mut out: Vec<(u32, TaskResponse)> = Vec::new();
        let ghost start = self@;
        loop
            invariant
                self@.max_threads == start.max_threads,
                self@.streams == start.streams,
                self@.routes == start.routes,
                out@.len() + self@.queue.len() == start.queue.len(),
                self@.queue == start.queue.skip(out@.len() as int),
                forall|i: int|
                    0 <= i < out@.len() ==> {
                        &&& (#[trigger] out@[i]).0 == start.queue[i].key
                        &&& answers(start.routes, utf8_text(start.queue[i].bytes@), out@[i].1)
                    },
            ensures
                self@.queue.len() == 0,
            decreases self@.queue.len(),
        {
            let ghost n = out@.len() as int;
            match self.work() {
                Some(answer) => {
                    out.push(answer);
                    proof {
                        assert(start.queue.skip(n).drop_first() =~= start.queue.skip(n + 1));
                        assert(start.queue.skip(n)[0] == start.queue[n]);
                    }
                },
                None => {
                    break ;
                },
            }
        }
        proof {
            assert(self@.queue =~= Seq::<WorkItem>::empty());
        }
        out
    }

    /// Hands a response to the connection that waits under `key`: takes the
    /// connection out of the table and returns it with the text to write to
    /// it. Where no connection waits under `key`, the response is dropped and
    /// nothing changes.
    pub fn deliver(&mut self, key: u32, response: &TaskResponse) -> (r: Option<(C, String)>)
        ensures
            match r {
                Some((conn, text)) => {
                    &&& old(self)@.streams.contains_key(key)
                    &&& conn == old(self)@.streams[key]
                    &&& text@ == response_text(response@.status, response@.content)
                    &&& final(self)@ == (ServerView {
                        streams: old(self)@.streams.remove(key),
                        ..old(self)@
                    })
                },
                None => !old(self)@.streams.contains_key(key) && final(self)@ == old(self)@,
            },
    {
        self.streams.deliver(key, response)
    }

    /// The parts of the server, for a caller that shares them between
    /// threads: the queue, the table of connections and the table of
    /// handlers.
    pub fn into_parts(self) -> (parts: (TaskQueue, Correlator<C>, Router<H>))
        ensures
            parts.0@ == self@.queue,
            parts.1@ == self@.streams,
            parts.2@ == self@.routes,
    {
        (self.task_queue, self.streams, self.handlers)
    }
}

} // verus!
