//! The result aggregator: one commutative checksum over every client's
//! final chained seed, folded by wrapping addition modulo 2^64 — so the
//! order in which results arrive cannot change the aggregate.
use crate::client::client_final;
use crate::client::run_aggregate;
use vstd::prelude::*;
use vstd::wrapping::u64_specs;

verus! {

/// The wrapping sum, modulo 2^64, of a sequence of results.
pub open spec fn sum_wrap(s: Seq<u64>) -> u64
    decreases s.len(),
{
    if s.len() == 0 {
        0
    } else {
        u64_specs::wrapping_add(sum_wrap(s.drop_last()), s.last())
    }
}

/// Wrapping addition lets the last two summands trade places.
proof fn lemma_wrap_add_rotate(a: u64, b: u64, c: u64)
    ensures
        u64_specs::wrapping_add(u64_specs::wrapping_add(a, b), c) == u64_specs::wrapping_add(
            u64_specs::wrapping_add(a, c),
            b,
        ),
{
}

/// Any one element can be split off the wrapping sum, not only the last.
proof fn lemma_sum_wrap_remove(s: Seq<u64>, j: int)
    requires
        0 <= j < s.len(),
    ensures
        sum_wrap(s) == u64_specs::wrapping_add(sum_wrap(s.remove(j)), s[j]),
    decreases s.len(),
{
    if j == s.len() - 1 {
        assert(s.remove(j) =~= s.drop_last());
    } else {
        let d = s.drop_last();
        lemma_sum_wrap_remove(d, j);
        assert(s.remove(j).drop_last() =~= d.remove(j));
        assert(s.remove(j).last() == s.last());
        lemma_wrap_add_rotate(sum_wrap(d.remove(j)), s[j], s.last());
    }
}

/// The aggregate checksum is invariant under any permutation of the order
/// in which the results are folded together: two sequences that hold the
/// same results sum to the same value.
pub proof fn lemma_sum_wrap_permutation(s1: Seq<u64>, s2: Seq<u64>)
    requires
        s1.to_multiset() == s2.to_multiset(),
    ensures
        sum_wrap(s1) == sum_wrap(s2),
    decreases s1.len(),
{
    s1.to_multiset_ensures();
    s2.to_multiset_ensures();
    if s1.len() == 0 {
        assert(s2.len() == 0);
    } else {
        let x = s1.last();
        let i1 = s1.len() - 1;
        assert(s1.remove(i1).to_multiset() =~= s1.to_multiset().remove(x));
        assert(s1.contains(x));
        assert(s2.to_multiset().count(x) > 0);
        assert(s2.contains(x));
        let j = choose|j: int| 0 <= j < s2.len() && s2[j] == x;
        assert(s2.remove(j).to_multiset() =~= s2.to_multiset().remove(x));
        lemma_sum_wrap_permutation(s1.remove(i1), s2.remove(j));
        lemma_sum_wrap_remove(s2, j);
        assert(s1.remove(i1) =~= s1.drop_last());
    }
}

/// The run's aggregate checksum is the wrapping sum of the per-client
/// final seeds in client order — and so, by permutation invariance, the
/// sum in whatever order the clients happen to finish.
pub proof fn lemma_run_aggregate_is_sum(
    initial_seed: u64,
    total_clients: nat,
    messages: nat,
    total_types: u64,
    engine: spec_fn(u8, u64) -> u8,
)
    requires
        total_clients <= u64::MAX,
    ensures
        run_aggregate(initial_seed, total_clients, messages, total_types, engine) == sum_wrap(
            Seq::new(
                total_clients,
                (|i: int| client_final(initial_seed, i as u64, total_types, engine, messages)),
            ),
        ),
    decreases total_clients,
{
    let f = |i: int| client_final(initial_seed, i as u64, total_types, engine, messages);
    let s = Seq::new(total_clients, f);
    if total_clients > 0 {
        lemma_run_aggregate_is_sum(
            initial_seed,
            (total_clients - 1) as nat,
            messages,
            total_types,
            engine,
        );
        assert(Seq::new((total_clients - 1) as nat, f) =~= s.drop_last());
        assert(s.last() == f(total_clients - 1));
    }
}

/// Fold a batch of client results into the aggregate checksum.
#[verifier::loop_isolation(false)]
pub fn aggregate(results: &Vec<u64>) -> (r: u64)
    ensures
        r == sum_wrap(results@),
{
    let mut acc: u64 = 0;
    let mut i: usize = 0;
    while i < results.len()
        invariant
            i <= results@.len(),
            acc == sum_wrap(results@.take(i as int)),
        decreases results@.len() - i,
    {
        acc = acc.wrapping_add(results[i]);
        proof {
            assert(results@.take(i + 1).drop_last() =~= results@.take(i as int));
            assert(results@.take(i + 1).last() == results@[i as int]);
        }
        i = i + 1;
    }
    proof {
        assert(results@.take(results@.len() as int) =~= results@);
    }
    acc
}

} // verus!
