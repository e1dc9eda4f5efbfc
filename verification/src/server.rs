//! The server's dispatch engine, modelled per connection.
//!
//! A connection handler loops through reading a line, routing it, and
//! writing the one-byte result. Routing parses the line, checks the
//! task-type code against the engine's range, and selects an execution
//! strategy; a malformed line or an out-of-range code is silently dropped.
//! The task engine itself is an external collaborator: specifications take
//! it as a function from `(task_type, seed)` to one byte.
use crate::protocol::Request;
use crate::protocol::parse_request;
use crate::protocol::parse_request_spec;
use vstd::prelude::*;

verus! {

/// The two execution strategies a request can be routed to.
#[derive(PartialEq, Eq, Structural, Clone, Copy, Debug)]
pub enum Strategy {
    /// A bounded worker pool for CPU-bound tasks.
    Pool,
    /// The connection scheduler itself, for IO-bound tasks.
    Cooperative,
}

/// A routed request: what to execute and where to execute it.
#[derive(PartialEq, Eq, Structural, Clone, Copy, Debug)]
pub struct Plan {
    pub request: Request,
    pub strategy: Strategy,
}

/// What routing one line yields: the parsed pair when the line is well
/// formed and the task type is in range, nothing otherwise.
pub open spec fn route_spec(line: Seq<u8>, total_types: u64) -> Option<(u8, u64)> {
    match parse_request_spec(line) {
        Some((t, s)) => if (t as u64) < total_types {
            Some((t, s))
        } else {
            None
        },
        None => None,
    }
}

/// The one-byte response a request line draws from a server over `engine`,
/// or nothing when the line is dropped.
pub open spec fn response_spec(line: Seq<u8>, total_types: u64, engine: spec_fn(u8, u64) -> u8) -> Option<
    u8,
> {
    match route_spec(line, total_types) {
        Some((t, s)) => Some(engine(t, s)),
        None => None,
    }
}

/// The responses one connection is sent, in order, for its request lines.
pub open spec fn responses_spec(
    lines: Seq<Seq<u8>>,
    total_types: u64,
    engine: spec_fn(u8, u64) -> u8,
) -> Seq<u8>
    decreases lines.len(),
{
    if lines.len() == 0 {
        Seq::empty()
    } else {
        responses_spec(lines.drop_last(), total_types, engine) + (match response_spec(
            lines.last(),
            total_types,
            engine,
        ) {
            Some(b) => seq![b],
            None => Seq::<u8>::empty(),
        })
    }
}

/// Parse a line and check its task type against the engine's range. An
/// out-of-range code is a routing miss, dropped like a malformed line.
pub fn route(line: &Vec<u8>, total_types: u64) -> (r: Option<Request>)
    ensures
        (match r {
            Some(req) => route_spec(line@, total_types) == Some((req.task_type, req.seed)),
            None => route_spec(line@, total_types) is None,
        }),
{
    match parse_request(line) {
        Some(req) => if (req.task_type as u64) < total_types {
            Some(req)
        } else {
            None
        },
        None => None,
    }
}

/// A server's behaviour on one request line: parse, range-check, and pick
/// an execution strategy.
pub trait ServerTrait: Sized {
    /// How many task types the engine accepts.
    spec fn total_types(&self) -> u64;

    /// The strategy chosen for an in-range task type.
    spec fn strategy_spec(&self, task_type: u8) -> Strategy;

    /// Parse and route one request line; nothing is returned — and nothing
    /// is sent — for a line that is dropped.
    fn plan_request(&self, line: &Vec<u8>) -> (p: Option<Plan>)
        ensures
            (match p {
                Some(plan) => route_spec(line@, self.total_types()) == Some(
                    (plan.request.task_type, plan.request.seed),
                ) && plan.strategy == self.strategy_spec(plan.request.task_type),
                None => route_spec(line@, self.total_types()) is None,
            }),
    ;
}

/// The plain server: every task runs cooperatively on the connection
/// scheduler.
pub struct Server {
    pub total_task_types: u64,
}

impl ServerTrait for Server {
    open spec fn total_types(&self) -> u64 {
        self.total_task_types
    }

    open spec fn strategy_spec(&self, task_type: u8) -> Strategy {
        Strategy::Cooperative
    }

    fn plan_request(&self, line: &Vec<u8>) -> (p: Option<Plan>) {
        match route(line, self.total_task_types) {
            Some(req) => Some(Plan { request: req, strategy: Strategy::Cooperative }),
            None => None,
        }
    }
}

/// The connection handler's state.
#[derive(PartialEq, Eq, Structural, Clone, Copy, Debug)]
pub enum ConnState {
    Reading,
    Dispatching,
    Writing,
    Closed,
}

/// What the handler observes while serving a connection.
#[derive(PartialEq, Eq, Structural, Clone, Copy, Debug)]
pub enum ConnEvent {
    /// A full line arrived.
    LineRead,
    /// The peer closed the stream: a normal termination.
    EndOfStream,
    /// An I/O error on read.
    ReadFailed,
    /// The line routed to a strategy and a byte is owed.
    RouteHit,
    /// The line was dropped; no response is sent.
    RouteMiss,
    /// The response byte was written in full.
    WriteDone,
    /// An I/O error on write.
    WriteFailed,
}

/// The handler's transition relation. An event that cannot occur in a
/// state leaves the state alone; `Closed` is final.
pub open spec fn conn_next(s: ConnState, e: ConnEvent) -> ConnState {
    match (s, e) {
        (ConnState::Reading, ConnEvent::LineRead) => ConnState::Dispatching,
        (ConnState::Reading, ConnEvent::EndOfStream) => ConnState::Closed,
        (ConnState::Reading, ConnEvent::ReadFailed) => ConnState::Closed,
        (ConnState::Dispatching, ConnEvent::RouteHit) => ConnState::Writing,
        (ConnState::Dispatching, ConnEvent::RouteMiss) => ConnState::Reading,
        (ConnState::Writing, ConnEvent::WriteDone) => ConnState::Reading,
        (ConnState::Writing, ConnEvent::WriteFailed) => ConnState::Closed,
        _ => s,
    }
}

/// Advance the connection handler one step.
pub fn conn_step(s: ConnState, e: ConnEvent) -> (n: ConnState)
    ensures
        n == conn_next(s, e),
{
    match (s, e) {
        (ConnState::Reading, ConnEvent::LineRead) => ConnState::Dispatching,
        (ConnState::Reading, ConnEvent::EndOfStream) => ConnState::Closed,
        (ConnState::Reading, ConnEvent::ReadFailed) => ConnState::Closed,
        (ConnState::Dispatching, ConnEvent::RouteHit) => ConnState::Writing,
        (ConnState::Dispatching, ConnEvent::RouteMiss) => ConnState::Reading,
        (ConnState::Writing, ConnEvent::WriteDone) => ConnState::Reading,
        (ConnState::Writing, ConnEvent::WriteFailed) => ConnState::Closed,
        _ => s,
    }
}

/// A closed connection stays closed: no event revives it.
pub proof fn lemma_closed_is_final(e: ConnEvent)
    ensures
        conn_next(ConnState::Closed, e) == ConnState::Closed,
{
}

/// The response to a request is exactly one byte and is determined by its
/// `(task_type, seed)` pair alone: two lines that route to the same pair
/// draw the same response from a deterministic engine.
pub proof fn lemma_response_function_of_pair(
    l1: Seq<u8>,
    l2: Seq<u8>,
    total_types: u64,
    engine: spec_fn(u8, u64) -> u8,
)
    requires
        route_spec(l1, total_types) == route_spec(l2, total_types),
        route_spec(l1, total_types) is Some,
    ensures
        response_spec(l1, total_types, engine) == response_spec(l2, total_types, engine),
        response_spec(l1, total_types, engine) is Some,
{
}

/// An out-of-range task type never brings the server down: the request is
/// a routing miss, silently dropped with no response.
pub proof fn lemma_out_of_range_dropped(
    line: Seq<u8>,
    total_types: u64,
    engine: spec_fn(u8, u64) -> u8,
)
    requires
        (match parse_request_spec(line) {
            Some((t, _)) => t as u64 >= total_types,
            None => false,
        }),
    ensures
        response_spec(line, total_types, engine) is None,
{
}

/// One more request line extends a connection's responses at the end, by
/// one byte on a routing hit and not at all on a miss: earlier responses
/// never move.
pub proof fn lemma_responses_append(
    lines: Seq<Seq<u8>>,
    line: Seq<u8>,
    total_types: u64,
    engine: spec_fn(u8, u64) -> u8,
)
    ensures
        responses_spec(lines.push(line), total_types, engine) == responses_spec(
            lines,
            total_types,
            engine,
        ) + (match response_spec(line, total_types, engine) {
            Some(b) => seq![b],
            None => Seq::<u8>::empty(),
        }),
{
    assert(lines.push(line).drop_last() =~= lines);
    assert(lines.push(line).last() == line);
}

/// Requests on one connection are strictly sequential, so the responses a
/// connection receives are, in order, a function of its own request lines
/// alone: under any concurrent load, two connections that issue identical
/// line sequences receive identical response sequences.
pub proof fn lemma_per_connection_order(
    lines: Seq<Seq<u8>>,
    total_types: u64,
    engine: spec_fn(u8, u64) -> u8,
    r1: Seq<u8>,
    r2: Seq<u8>,
)
    requires
        r1 == responses_spec(lines, total_types, engine),
        r2 == responses_spec(lines, total_types, engine),
    ensures
        r1 == r2,
{
}

} // verus!
