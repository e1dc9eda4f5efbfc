//! The client's deterministic load generator.
//!
//! Each simulated client owns a private ChaCha20 generator seeded from the
//! run's initial seed and its own index. It draws an initial chained seed,
//! then for every message draws a task type, sends one request line, waits
//! for the one-byte response, and folds the byte plus a fresh draw into the
//! next chained seed. Everything here is a function of the seed and the
//! response bytes, so a whole run is reproducible bit for bit; the network
//! itself is left to the caller.
use crate::protocol::format_request;
use crate::protocol::lemma_request_line_parses;
use crate::protocol::request_line_spec;
use crate::server::response_spec;
use vstd::prelude::*;
use vstd::wrapping::u64_specs;

verus! {

#[verifier::external_type_specification]
#[verifier::external_body]
pub struct ExChaCha20Rng(rand_chacha::ChaCha20Rng);

/// The `index`-th value of the ChaCha20 stream for the generator seeded
/// with `seed`.
pub uninterp spec fn chacha_draw(seed: u64, index: nat) -> u64;

/// A seeded ChaCha20 generator together with how far it has been drawn.
pub struct ChainRng {
    inner: rand_chacha::ChaCha20Rng,
    pos: Ghost<(u64, nat)>,
}

impl ChainRng {
    /// The seed the generator was made with.
    pub closed spec fn seed(self) -> u64 {
        self.pos@.0
    }

    /// How many values have been drawn from it.
    pub closed spec fn drawn(self) -> nat {
        self.pos@.1
    }

    /// Relies on rand_core::SeedableRng::seed_from_u64, as implemented for
    /// rand_chacha::ChaCha20Rng: a reproducible generator whose output
    /// stream is a function of the seed alone, on every machine.
    #[verifier::external_body]
    pub fn new(seed: u64) -> (r: ChainRng)
        ensures
            r.seed() == seed,
            r.drawn() == 0,
    {
        ChainRng {
            inner: rand::SeedableRng::seed_from_u64(seed),
            pos: Ghost((seed, 0)),
        }
    }

    /// Relies on rand_core::RngCore::next_u64 for ChaCha20Rng: the next
    /// value of the deterministic stream that `chacha_draw` names.
    #[verifier::external_body]
    pub fn next(&mut self) -> (r: u64)
        ensures
            final(self).seed() == old(self).seed(),
            final(self).drawn() == old(self).drawn() + 1,
            r == chacha_draw(old(self).seed(), old(self).drawn()),
    {
        rand::RngCore::next_u64(&mut self.inner)
    }
}

/// The private generator seed of one simulated client.
pub open spec fn start_seed_spec(initial_seed: u64, client_index: u64) -> u64
    recommends
        initial_seed + 3211 * client_index <= u64::MAX,
{
    (initial_seed + 3211 * client_index) as u64
}

/// The task-type code of a client's message number `k` (counted from 0).
pub open spec fn task_code(seed: u64, total_types: u64, k: nat) -> u64
    recommends
        total_types >= 1,
{
    chacha_draw(seed, 2 * k + 1) % total_types
}

/// The chained seed after absorbing `responses`: the fresh draw before the
/// first message, then the last response byte plus the draw made right
/// after it, wrapping modulo 2^64.
pub open spec fn chain_current(seed: u64, responses: Seq<u8>) -> u64 {
    if responses.len() == 0 {
        chacha_draw(seed, 0)
    } else {
        u64_specs::wrapping_add(responses.last() as u64, chacha_draw(seed, 2 * responses.len()))
    }
}

/// One simulated client's session: its request lines and its chained seed.
/// The caller carries each line to the server and brings one response byte
/// back; the session never sends a new request while one is outstanding.
pub struct ClientSession {
    rng: ChainRng,
    current_seed: u64,
    completed: u64,
    awaiting: bool,
    total_messages: u64,
    total_task_types: u64,
    history: Ghost<Seq<u8>>,
}

impl ClientSession {
    /// The generator seed this session runs on.
    pub closed spec fn seed(self) -> u64 {
        self.rng.seed()
    }

    /// The response bytes absorbed so far, in order.
    pub closed spec fn history(self) -> Seq<u8> {
        self.history@
    }

    /// How many round trips have completed.
    pub closed spec fn completed(self) -> nat {
        self.history@.len()
    }

    /// Is a request outstanding?
    pub closed spec fn awaiting(self) -> bool {
        self.awaiting
    }

    pub closed spec fn total_messages(self) -> u64 {
        self.total_messages
    }

    pub closed spec fn total_task_types(self) -> u64 {
        self.total_task_types
    }

    /// The chained seed the session has reached.
    pub closed spec fn current(self) -> u64 {
        self.current_seed
    }

    /// The session's invariant: the chained seed is exactly what the
    /// absorbed responses dictate, and the generator stands at the draw
    /// the protocol calls for next.
    pub closed spec fn wf(self) -> bool {
        &&& self.completed == self.history@.len()
        &&& self.total_task_types >= 1
        &&& self.history@.len() <= self.total_messages
        &&& (self.awaiting ==> self.history@.len() < self.total_messages)
        &&& self.rng.drawn() == 1 + 2 * self.history@.len() + (if self.awaiting {
            1nat
        } else {
            0nat
        })
        &&& self.current_seed == chain_current(self.rng.seed(), self.history@)
    }

    /// Begin a session: seed the private generator from the run's initial
    /// seed and this client's index, and draw the first chained seed.
    pub fn new(initial_seed: u64, client_index: u64, total_messages: u64, total_task_types: u64) -> (s:
        ClientSession)
        requires
            total_task_types >= 1,
            initial_seed + 3211 * client_index <= u64::MAX,
        ensures
            s.wf(),
            s.seed() == start_seed_spec(initial_seed, client_index),
            s.history() == Seq::<u8>::empty(),
            !s.awaiting(),
            s.total_messages() == total_messages,
            s.total_task_types() == total_task_types,
            s.current() == chacha_draw(s.seed(), 0),
    {
        let seed = initial_seed + 3211 * client_index;
        let mut rng = ChainRng::new(seed);
        let current_seed = rng.next();
        ClientSession {
            rng,
            current_seed,
            completed: 0,
            awaiting: false,
            total_messages,
            total_task_types,
            history: Ghost(Seq::empty()),
        }
    }

    /// Produce the next request line: a fresh draw reduced to a task-type
    /// code, paired with the current chained seed.
    pub fn next_request(&mut self) -> (line: Vec<u8>)
        requires
            old(self).wf(),
            !old(self).awaiting(),
            old(self).completed() < old(self).total_messages(),
        ensures
            final(self).wf(),
            final(self).awaiting(),
            final(self).seed() == old(self).seed(),
            final(self).history() == old(self).history(),
            final(self).current() == old(self).current(),
            final(self).total_messages() == old(self).total_messages(),
            final(self).total_task_types() == old(self).total_task_types(),
            line@ == request_line_spec(
                task_code(old(self).seed(), old(self).total_task_types(), old(self).completed()),
                old(self).current(),
            ),
    {
        let draw = self.rng.next();
        let t = draw % self.total_task_types;
        self.awaiting = true;
        format_request(t, self.current_seed)
    }

    /// Fold one response byte into the chain: the next seed is the byte
    /// plus a fresh draw, wrapping modulo 2^64.
    pub fn absorb_response(&mut self, byte: u8)
        requires
            old(self).wf(),
            old(self).awaiting(),
        ensures
            final(self).wf(),
            !final(self).awaiting(),
            final(self).seed() == old(self).seed(),
            final(self).history() == old(self).history().push(byte),
            final(self).completed() == old(self).completed() + 1,
            final(self).total_messages() == old(self).total_messages(),
            final(self).total_task_types() == old(self).total_task_types(),
            final(self).current() == u64_specs::wrapping_add(
                byte as u64,
                chacha_draw(old(self).seed(), 2 * (old(self).completed() + 1)),
            ),
    {
        let draw = self.rng.next();
        self.current_seed = (byte as u64).wrapping_add(draw);
        self.completed = self.completed + 1;
        self.awaiting = false;
        proof {
            self.history@ = self.history@.push(byte);
            assert(self.history@.last() == byte);
        }
    }

    /// The chained seed reached so far; after the last response this is
    /// the client's final seed, emitted for aggregation.
    pub fn current_seed(&self) -> (r: u64)
        ensures
            r == self.current(),
    {
        self.current_seed
    }

    /// How many messages are still owed.
    pub fn messages_left(&self) -> (r: u64)
        requires
            self.wf(),
        ensures
            r as nat == self.total_messages() - self.completed(),
    {
        self.total_messages - self.completed
    }
}

/// The chained seed after `k` full round trips against a server that draws
/// its responses from `engine`.
pub open spec fn run_current(seed: u64, total_types: u64, engine: spec_fn(u8, u64) -> u8, k: nat) -> u64
    recommends
        total_types >= 1,
    decreases k,
{
    if k == 0 {
        chacha_draw(seed, 0)
    } else {
        u64_specs::wrapping_add(
            engine(
                task_code(seed, total_types, (k - 1) as nat) as u8,
                run_current(seed, total_types, engine, (k - 1) as nat),
            ) as u64,
            chacha_draw(seed, 2 * k),
        )
    }
}

/// The final chained seed of one simulated client after its whole run.
pub open spec fn client_final(
    initial_seed: u64,
    client_index: u64,
    total_types: u64,
    engine: spec_fn(u8, u64) -> u8,
    messages: nat,
) -> u64 {
    run_current(start_seed_spec(initial_seed, client_index), total_types, engine, messages)
}

/// The aggregate checksum of a whole run: the wrapping sum, modulo 2^64,
/// of every client's final chained seed.
pub open spec fn run_aggregate(
    initial_seed: u64,
    total_clients: nat,
    messages: nat,
    total_types: u64,
    engine: spec_fn(u8, u64) -> u8,
) -> u64
    recommends
        total_clients <= u64::MAX,
    decreases total_clients,
{
    if total_clients == 0 {
        0
    } else {
        u64_specs::wrapping_add(
            run_aggregate(initial_seed, (total_clients - 1) as nat, messages, total_types, engine),
            client_final(
                initial_seed,
                (total_clients - 1) as u64,
                total_types,
                engine,
                messages,
            ),
        )
    }
}

/// Running the driver twice with identical parameters against a
/// deterministic engine produces an identical aggregate checksum.
pub proof fn lemma_run_reproducible(
    initial_seed: u64,
    total_clients: nat,
    messages: nat,
    total_types: u64,
    engine: spec_fn(u8, u64) -> u8,
    r1: u64,
    r2: u64,
)
    requires
        r1 == run_aggregate(initial_seed, total_clients, messages, total_types, engine),
        r2 == run_aggregate(initial_seed, total_clients, messages, total_types, engine),
    ensures
        r1 == r2,
{
}

/// A session that absorbed, for each of its messages, the engine's byte
/// for the pair it sent has reached exactly the run's chained seed.
pub proof fn lemma_chain_follows_engine(
    seed: u64,
    total_types: u64,
    engine: spec_fn(u8, u64) -> u8,
    responses: Seq<u8>,
)
    requires
        total_types >= 1,
        forall|k: int|
            0 <= k < responses.len() ==> responses[k] == engine(
                task_code(seed, total_types, k as nat) as u8,
                run_current(seed, total_types, engine, k as nat),
            ),
    ensures
        chain_current(seed, responses) == run_current(seed, total_types, engine, responses.len()),
{
    if responses.len() > 0 {
        assert(responses[responses.len() - 1] == engine(
            task_code(seed, total_types, (responses.len() - 1) as nat) as u8,
            run_current(seed, total_types, engine, (responses.len() - 1) as nat),
        ));
    }
}

/// One full round trip: the line the client sends for its message number
/// `k` routes on the server to exactly the pair the client chained, and
/// the engine's byte for that pair is the response the client folds in.
pub proof fn lemma_round_trip_message(
    seed: u64,
    total_types: u64,
    engine: spec_fn(u8, u64) -> u8,
    k: nat,
)
    requires
        1 <= total_types <= 256,
    ensures
        response_spec(
            request_line_spec(
                task_code(seed, total_types, k),
                run_current(seed, total_types, engine, k),
            ),
            total_types,
            engine,
        ) == Some(
            engine(
                task_code(seed, total_types, k) as u8,
                run_current(seed, total_types, engine, k),
            ),
        ),
{
    let t = task_code(seed, total_types, k);
    assert(t < total_types);
    lemma_request_line_parses(t, run_current(seed, total_types, engine, k));
}

/// A whole run of one client against a conforming server: when every byte
/// the session absorbs is the server's response to the very line the
/// session sent for that message, the final chained seed is exactly the
/// run's value — so a rerun with the same parameters lands on the same
/// seed, bit for bit.
pub proof fn lemma_session_run(
    seed: u64,
    total_types: u64,
    engine: spec_fn(u8, u64) -> u8,
    responses: Seq<u8>,
)
    requires
        1 <= total_types <= 256,
        forall|k: int|
            0 <= k < responses.len() ==> Some(#[trigger] responses[k]) == response_spec(
                request_line_spec(
                    task_code(seed, total_types, k as nat),
                    run_current(seed, total_types, engine, k as nat),
                ),
                total_types,
                engine,
            ),
    ensures
        chain_current(seed, responses) == run_current(seed, total_types, engine, responses.len()),
{
    assert forall|k: int| 0 <= k < responses.len() implies responses[k] == engine(
        task_code(seed, total_types, k as nat) as u8,
        run_current(seed, total_types, engine, k as nat),
    ) by {
        lemma_round_trip_message(seed, total_types, engine, k as nat);
    }
    lemma_chain_follows_engine(seed, total_types, engine, responses);
}

/// The client driver's per-client behaviour, reduced to a plain interface:
/// everything deterministic about one simulated client.
pub trait ClientTrait: Sized {
    /// Derive the private generator seed of one simulated client.
    fn client_seed(&self, initial_seed: u64, client_index: u64) -> (s: u64)
        requires
            initial_seed + 3211 * client_index <= u64::MAX,
        ensures
            s == start_seed_spec(initial_seed, client_index),
    ;

    /// Begin one simulated client's session.
    fn start_session(
        &self,
        initial_seed: u64,
        client_index: u64,
        total_messages: u64,
        total_task_types: u64,
    ) -> (s: ClientSession)
        requires
            total_task_types >= 1,
            initial_seed + 3211 * client_index <= u64::MAX,
        ensures
            s.wf(),
            s.seed() == start_seed_spec(initial_seed, client_index),
            s.history() == Seq::<u8>::empty(),
            !s.awaiting(),
            s.total_messages() == total_messages,
            s.total_task_types() == total_task_types,
            s.current() == chacha_draw(s.seed(), 0),
    ;
}

/// The concrete simulated client.
pub struct Client;

impl ClientTrait for Client {
    fn client_seed(&self, initial_seed: u64, client_index: u64) -> (s: u64) {
        initial_seed + 3211 * client_index
    }

    fn start_session(
        &self,
        initial_seed: u64,
        client_index: u64,
        total_messages: u64,
        total_task_types: u64,
    ) -> (s: ClientSession) {
        ClientSession::new(initial_seed, client_index, total_messages, total_task_types)
    }
}

impl Client {
    /// Extract one response message from freshly read bytes: a message is
    /// exactly one byte, and a short read is no message at all.
    pub fn read_message(data: &Vec<u8>) -> (r: Option<Vec<u8>>)
        ensures
            (match r {
                Some(message) => data@.len() >= 1 && message@ == data@.subrange(0, 1),
                None => data@.len() == 0,
            }),
    {
        if data.len() >= 1 {
            let mut message: Vec<u8> = Vec::new();
            message.push(data[0]);
            proof {
                assert(message@ =~= data@.subrange(0, 1));
            }
            Some(message)
        } else {
            None
        }
    }
}

} // verus!
