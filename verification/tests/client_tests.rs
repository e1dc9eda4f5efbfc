use rand::RngCore;
use rand::SeedableRng;
use taskbench::aggregate::aggregate;
use taskbench::client::Client;
use taskbench::client::ClientSession;
use taskbench::client::ClientTrait;
use taskbench::protocol::parse_request;
use taskbench::server::route;

/// A stand-in task engine: deterministic, total on its domain.
fn engine(task_type: u8, seed: u64) -> u8 {
    (seed ^ (task_type as u64)).wrapping_mul(2654435761) as u8
}

/// Drive one simulated client against the routing logic and the stand-in
/// engine, entirely in memory.
fn simulate_client(initial_seed: u64, client_index: u64, messages: u64, total_types: u64) -> u64 {
    let mut session = ClientSession::new(initial_seed, client_index, messages, total_types);
    for _ in 0..messages {
        let line = session.next_request();
        let req = route(&line, total_types).expect("a generated request always routes");
        let byte = engine(req.task_type, req.seed);
        session.absorb_response(byte);
    }
    session.current_seed()
}

/// Drive a whole run and aggregate, as the client driver does.
fn simulate_run(initial_seed: u64, total_clients: u64, messages: u64, total_types: u64) -> u64 {
    let mut finals = Vec::new();
    for i in 0..total_clients {
        finals.push(simulate_client(initial_seed, i, messages, total_types));
    }
    aggregate(&finals)
}

#[test]
fn client_seed_derivation() {
    let c = Client;
    assert_eq!(c.client_seed(42, 0), 42);
    assert_eq!(c.client_seed(42, 3), 42 + 3211 * 3);
    assert_eq!(c.client_seed(0, 1000), 3211000);
}

#[test]
fn session_follows_the_chacha_stream() {
    let total_types: u64 = 10;
    let mut reference = rand_chacha::ChaCha20Rng::seed_from_u64(42);
    let d0 = reference.next_u64();
    let d1 = reference.next_u64();
    let d2 = reference.next_u64();

    let mut session = ClientSession::new(42, 0, 1, total_types);
    assert_eq!(session.messages_left(), 1);
    let line = session.next_request();
    let expected = format!("{}:{}\n", d1 % total_types, d0).into_bytes();
    assert_eq!(line, expected);

    let req = parse_request(&line).unwrap();
    assert_eq!(req.task_type as u64, d1 % total_types);
    assert_eq!(req.seed, d0);

    let byte = engine(req.task_type, req.seed);
    session.absorb_response(byte);
    assert_eq!(session.current_seed(), (byte as u64).wrapping_add(d2));
    assert_eq!(session.messages_left(), 0);
}

#[test]
fn single_client_single_message_aggregate() {
    // One client, one message, initial seed 42: the aggregate is the
    // response byte plus the generator's next draw, wrapped modulo 2^64 —
    // reproducible bit for bit.
    let mut reference = rand_chacha::ChaCha20Rng::seed_from_u64(42);
    let _d0 = reference.next_u64();
    let _d1 = reference.next_u64();
    let d2 = reference.next_u64();

    let total_types: u64 = 10;
    let mut session = ClientSession::new(42, 0, 1, total_types);
    let line = session.next_request();
    let req = route(&line, total_types).unwrap();
    let byte = engine(req.task_type, req.seed);
    session.absorb_response(byte);
    let final_seed = session.current_seed();
    assert_eq!(final_seed, (byte as u64).wrapping_add(d2));

    let agg = aggregate(&vec![final_seed]);
    assert_eq!(agg, (byte as u64).wrapping_add(d2));
    // And the same run again lands on the same value.
    assert_eq!(simulate_run(42, 1, 1, total_types), agg);
}

#[test]
fn identical_runs_identical_checksums() {
    let first = simulate_run(7, 5, 4, 16);
    let second = simulate_run(7, 5, 4, 16);
    assert_eq!(first, second);
    // A different parameterisation lands elsewhere.
    let third = simulate_run(8, 5, 4, 16);
    let fourth = simulate_run(7, 6, 4, 16);
    assert!(first != third || first != fourth);
}

#[test]
fn aggregate_is_order_independent() {
    let a = simulate_client(99, 0, 3, 12);
    let b = simulate_client(99, 1, 3, 12);
    let c = simulate_client(99, 2, 3, 12);
    let natural = aggregate(&vec![a, b, c]);
    assert_eq!(natural, aggregate(&vec![c, a, b]));
    assert_eq!(natural, aggregate(&vec![b, c, a]));
    assert_eq!(natural, aggregate(&vec![c, b, a]));
    assert_eq!(natural, a.wrapping_add(b).wrapping_add(c));
}

#[test]
fn aggregate_wraps_modulo_two_to_the_64() {
    assert_eq!(aggregate(&vec![]), 0);
    assert_eq!(aggregate(&vec![u64::MAX, 2]), 1);
    assert_eq!(aggregate(&vec![2, u64::MAX]), 1);
}

#[test]
fn read_message_takes_exactly_one_byte() {
    assert_eq!(Client::read_message(&vec![7, 9]), Some(vec![7]));
    assert_eq!(Client::read_message(&vec![200]), Some(vec![200]));
    assert_eq!(Client::read_message(&vec![]), None);
}
