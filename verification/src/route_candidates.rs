//! The candidate routes that the Metatron router evaluates: the identity
//! route, the first members of the C6 and D6 subgroups, and then routes of
//! the S7 space drawn by a linear congruential generator seeded from the
//! digest of the input state.

use vstd::prelude::*;
use crate::hashing::sha256_bytes;
use crate::topology::extend_to_thirteen;

verus! {

/// The modulus of the generator, 2^31.
pub open spec fn lcg_modulus() -> int {
    2147483648
}

/// One step of the generator.
pub open spec fn lcg_next(state: int) -> int {
    (state * 1103515245 + 12345) % lcg_modulus()
}

/// The generator's state after `k` steps from `seed`.
pub open spec fn lcg_state(seed: int, k: nat) -> int
    decreases k,
{
    if k == 0 {
        seed
    } else {
        lcg_next(lcg_state(seed, (k - 1) as nat))
    }
}

/// The distinct indices below `len` drawn in the first `k` steps, in the
/// order in which each was first drawn.
pub open spec fn first_draws(seed: int, len: int, k: nat) -> Seq<int>
    decreases k,
{
    if k == 0 {
        Seq::empty()
    } else {
        let prev = first_draws(seed, len, (k - 1) as nat);
        let idx = lcg_state(seed, k) % len;
        if prev.contains(idx) {
            prev
        } else {
            prev.push(idx)
        }
    }
}

/// The number of steps after which the drawing stops: the first step
/// count, from `k` on, at which `target` distinct indices have been drawn,
/// or the generator's period when that never happens before it.
pub open spec fn stop_step(seed: int, len: int, target: int, k: nat) -> nat
    decreases lcg_modulus() - k,
{
    if k >= lcg_modulus() || first_draws(seed, len, k).len() >= target {
        k
    } else {
        stop_step(seed, len, target, k + 1)
    }
}

/// The indices drawn for `target` samples of a space of `len` routes.
pub open spec fn sampled_indices(seed: int, len: int, target: int) -> Seq<int> {
    first_draws(seed, len, stop_step(seed, len, target, 0))
}

/// The number of subgroup members taken: at most three, and at most
/// `room`.
pub open spec fn subgroup_take(available: int, room: int) -> int {
    let cap = if room < 3 {
        room
    } else {
        3
    };
    if available < cap {
        available
    } else {
        cap
    }
}

/// A route of the space extended by the nodes 8 through 13.
pub open spec fn extended(p: Seq<usize>) -> Seq<usize> {
    p + crate::topology::upper_nodes()
}

/// The structured candidates: the identity route, then the first C6 and
/// D6 members that fit into `n` candidates, each extended.
pub open spec fn structured_candidates(c6: Seq<Vec<usize>>, d6: Seq<Vec<usize>>, n: int) -> Seq<Seq<usize>> {
    let c6k = subgroup_take(c6.len() as int, n - 1);
    let d6k = subgroup_take(d6.len() as int, n - 1 - c6k);
    seq![crate::topology::identity_route()] + Seq::new(c6k as nat, |i: int| extended(c6[i]@)) + Seq::new(
        d6k as nat,
        |i: int| extended(d6[i]@),
    )
}

/// All candidates for `n` routes: the structured ones, then the drawn S7
/// routes until `n` candidates are reached or the space is exhausted.
pub open spec fn candidate_routes(
    seed: int,
    s7: Seq<Vec<usize>>,
    c6: Seq<Vec<usize>>,
    d6: Seq<Vec<usize>>,
    n: int,
) -> Seq<Seq<usize>> {
    let head = structured_candidates(c6, d6, n);
    let target = if n - head.len() < s7.len() {
        n - head.len()
    } else {
        s7.len() as int
    };
    let draws = sampled_indices(seed, s7.len() as int, target);
    head + Seq::new(draws.len(), |t: int| extended(s7[draws[t]]@))
}

/// The routes as sequences.
pub open spec fn route_views(routes: Seq<Vec<usize>>) -> Seq<Seq<usize>> {
    routes.map_values(|r: Vec<usize>| r@)
}

/// The first four bytes read as a big-endian integer.
pub open spec fn be_u32_value(b: Seq<u8>) -> int {
    16777216 * b[0] + 65536 * b[1] + 256 * b[2] + b[3]
}

proof fn lemma_first_draws_bounds(seed: int, len: int, k: nat)
    requires
        len > 0,
    ensures
        first_draws(seed, len, k).no_duplicates(),
        forall|t: int| 0 <= t < first_draws(seed, len, k).len() ==> 0 <= #[trigger] first_draws(seed, len, k)[t] < len,
        first_draws(seed, len, k).len() <= k,
    decreases k,
{
    if k > 0 {
        lemma_first_draws_bounds(seed, len, (k - 1) as nat);
    }
}

/// Law: the drawn indices never repeat, each names a route of the space,
/// and no more are drawn than asked for.
pub proof fn lemma_sampled_distinct(seed: int, len: int, target: int)
    requires
        len > 0,
    ensures
        sampled_indices(seed, len, target).no_duplicates(),
        forall|t: int|
            0 <= t < sampled_indices(seed, len, target).len() ==> 0 <= #[trigger] sampled_indices(seed, len, target)[t]
                < len,
        target >= 0 ==> sampled_indices(seed, len, target).len() <= target,
{
    lemma_first_draws_bounds(seed, len, stop_step(seed, len, target, 0));
    if target >= 0 {
        lemma_stop_step_bound(seed, len, target, 0);
    }
}

proof fn lemma_stop_step_bound(seed: int, len: int, target: int, k: nat)
    requires
        target >= 0,
        first_draws(seed, len, k).len() <= target,
    ensures
        first_draws(seed, len, stop_step(seed, len, target, k)).len() <= target,
    decreases lcg_modulus() - k,
{
    if !(k >= lcg_modulus() || first_draws(seed, len, k).len() >= target) {
        assert(first_draws(seed, len, k + 1).len() <= first_draws(seed, len, k).len() + 1);
        lemma_stop_step_bound(seed, len, target, k + 1);
    }
}

/// The drawn routes after one more first draw.
proof fn lemma_drawn_routes_push(
    head: Seq<Seq<usize>>,
    s7: Seq<Vec<usize>>,
    prev: Seq<int>,
    idx: int,
)
    ensures
        head + Seq::new(prev.push(idx).len(), |t: int| extended(s7[prev.push(idx)[t]]@)) =~= (head + Seq::new(
            prev.len(),
            |t: int| extended(s7[prev[t]]@),
        )).push(extended(s7[idx]@)),
{
}

/// Marking a newly drawn index keeps the marks in step with the draws.
proof fn lemma_marks_push(marks: Seq<bool>, prev: Seq<int>, idx: int, len: int)
    requires
        marks.len() == len,
        0 <= idx < len,
        forall|i: int| 0 <= i < len ==> (#[trigger] marks[i] <==> prev.contains(i)),
    ensures
        forall|i: int| 0 <= i < len ==> (#[trigger] marks.update(idx, true)[i] <==> prev.push(idx).contains(i)),
{
    let now = prev.push(idx);
    assert forall|i: int| 0 <= i < len implies (#[trigger] marks.update(idx, true)[i] <==> now.contains(i)) by {
        if i == idx {
            assert(now[now.len() - 1] == i);
        } else if now.contains(i) {
            let w = choose|w: int| 0 <= w < now.len() && now[w] == i;
            assert(w < prev.len());
            assert(prev[w] == i);
        } else {
            if prev.contains(i) {
                let w = choose|w: int| 0 <= w < prev.len() && prev[w] == i;
                assert(now[w] == i);
            }
        }
    }
}

/// One step of the generator on machine integers.
proof fn lemma_step_value(seed: int, k: nat, state: u64)
    requires
        state == lcg_state(seed, k),
        state < 4294967296,
    ensures
        (state * 1103515245 + 12345) % 2147483648 == lcg_state(seed, k + 1),
{
}

/// Pushes the first `take` members of `group`, each extended.
fn push_members(out: &mut Vec<Vec<usize>>, group: &Vec<Vec<usize>>, take: usize)
    requires
        take <= group@.len(),
    ensures
        route_views(final(out)@) == route_views(old(out)@) + Seq::new(take as nat, |i: int| extended(group@[i]@)),
{
    let ghost start = route_views(out@);
    let mut i: usize = 0;
    while i < take
        invariant
            take <= group@.len(),
            0 <= i <= take,
            route_views(out@) == start + Seq::new(i as nat, |t: int| extended(group@[t]@)),
        decreases take - i,
    {
        let e = extend_to_thirteen(&group[i]);
        let ghost before = out@;
        out.push(e);
        proof {
            assert(route_views(out@) =~= route_views(before).push(e@));
            assert(route_views(out@) =~= start + Seq::new((i + 1) as nat, |t: int| extended(group@[t]@)));
        }
        i = i + 1;
    }
}

/// The candidates for `n_candidates` routes when the generator starts
/// from `seed`.
pub fn candidates_from_seed(
    seed: u32,
    n_candidates: usize,
    s7: &Vec<Vec<usize>>,
    c6: &Vec<Vec<usize>>,
    d6: &Vec<Vec<usize>>,
) -> (routes: Vec<Vec<usize>>)
    requires
        n_candidates >= 1,
    ensures
        route_views(routes@) == candidate_routes(seed as int, s7@, c6@, d6@, n_candidates as int),
        routes@.len() <= n_candidates,
{
    let mut routes: Vec<Vec<usize>> = Vec::new();
    let mut identity: Vec<usize> = Vec::new();
    let mut node: usize = 1;
    while node <= 13
        invariant
            1 <= node <= 14,
            identity@ == crate::topology::identity_route().subrange(0, node - 1),
        decreases 14 - node,
    {
        identity.push(node);
        assert(identity@ =~= crate::topology::identity_route().subrange(0, node as int));
        node = node + 1;
    }
    assert(crate::topology::identity_route().subrange(0, 13) =~= crate::topology::identity_route());
    routes.push(identity);
    assert(route_views(routes@) =~= seq![crate::topology::identity_route()]);

    let room = n_candidates - 1;
    let cap_c6: usize = if room < 3 {
        room
    } else {
        3
    };
    let c6k: usize = if c6.len() < cap_c6 {
        c6.len()
    } else {
        cap_c6
    };
    push_members(&mut routes, c6, c6k);
    assert(route_views(routes@).len() == routes@.len());
    assert(routes@.len() == 1 + c6k);
    let remaining = n_candidates - routes.len();
    let cap_d6: usize = if remaining < 3 {
        remaining
    } else {
        3
    };
    let d6k: usize = if d6.len() < cap_d6 {
        d6.len()
    } else {
        cap_d6
    };
    push_members(&mut routes, d6, d6k);
    assert(route_views(routes@).len() == routes@.len());
    let ghost head = route_views(routes@);
    assert(head =~= structured_candidates(c6@, d6@, n_candidates as int));

    let len = s7.len();
    let gap = n_candidates - routes.len();
    let target: usize = if gap < len {
        gap
    } else {
        len
    };
    let ghost gseed = seed as int;
    let ghost glen = len as int;
    let ghost gtarget = target as int;
    let mut chosen: Vec<bool> = Vec::new();
    let mut c: usize = 0;
    while c < len
        invariant
            c <= len,
            chosen@.len() == c,
            forall|i: int| 0 <= i < c ==> !(#[trigger] chosen@[i]),
        decreases len - c,
    {
        chosen.push(false);
        c = c + 1;
    }
    let mut drawn: usize = 0;
    let mut state: u64 = seed as u64;
    let mut steps: u64 = 0;
    assert(head + Seq::new(0, |t: int| extended(s7@[first_draws(gseed, glen, 0)[t]]@)) =~= head);
    while drawn < target && steps < 2147483648
        invariant
            len == s7@.len(),
            glen == len,
            gseed == seed,
            gtarget == target,
            target <= len,
            head.len() + target <= n_candidates,
            chosen@.len() == len,
            len > 0 || target == 0,
            steps <= 2147483648,
            state == lcg_state(gseed, steps as nat),
            state < 4294967296,
            target > 0 ==> drawn == first_draws(gseed, glen, steps as nat).len(),
            target > 0 ==> forall|i: int| 0 <= i < len ==> (#[trigger] chosen@[i] <==> first_draws(gseed, glen, steps as nat).contains(i)),
            target > 0 ==> route_views(routes@) == head + Seq::new(
                first_draws(gseed, glen, steps as nat).len(),
                |t: int| extended(s7@[first_draws(gseed, glen, steps as nat)[t]]@),
            ),
            target == 0 ==> route_views(routes@) == head && drawn == 0 && steps == 0,
            drawn <= target,
            stop_step(gseed, glen, gtarget, 0) == stop_step(gseed, glen, gtarget, steps as nat),
        decreases 2147483648 - steps,
    {
        proof {
            lemma_first_draws_bounds(gseed, glen, steps as nat);
            assert(stop_step(gseed, glen, gtarget, steps as nat) == stop_step(gseed, glen, gtarget, (steps + 1) as nat));
            lemma_step_value(gseed, steps as nat, state);
        }
        let ghost prev = first_draws(gseed, glen, steps as nat);
        let ghost before = routes@;
        state = (state * 1103515245 + 12345) % 2147483648;
        steps = steps + 1;
        let idx = (state % (len as u64)) as usize;
        assert(idx as int == lcg_state(gseed, steps as nat) % glen);
        if !chosen[idx] {
            let ghost marks = chosen@;
            chosen.set(idx, true);
            let e = extend_to_thirteen(&s7[idx]);
            routes.push(e);
            drawn = drawn + 1;
            proof {
                assert(!prev.contains(idx as int));
                assert(first_draws(gseed, glen, steps as nat) == prev.push(idx as int));
                lemma_marks_push(marks, prev, idx as int, glen);
                lemma_drawn_routes_push(head, s7@, prev, idx as int);
                assert(route_views(routes@) =~= route_views(before).push(e@));
            }
        } else {
            proof {
                assert(prev.contains(idx as int));
                assert(first_draws(gseed, glen, steps as nat) == prev);
            }
        }
    }
    proof {
        if target > 0 {
            assert(stop_step(gseed, glen, gtarget, steps as nat) == steps as nat);
            assert(sampled_indices(gseed, glen, gtarget) == first_draws(gseed, glen, steps as nat));
        } else {
            assert(stop_step(gseed, glen, gtarget, 0) == 0);
            assert(sampled_indices(gseed, glen, gtarget) == Seq::<int>::empty());
            assert(route_views(routes@) =~= head + Seq::new(0, |t: int| extended(s7@[sampled_indices(gseed, glen, gtarget)[t]]@)));
        }
        assert(route_views(routes@) =~= candidate_routes(gseed, s7@, c6@, d6@, n_candidates as int));
    }
    routes
}

/// The candidate routes for an input state given as the little-endian
/// bytes of its entries: the generator is seeded with the first four bytes
/// of the SHA-256 digest of those bytes, read big-endian.
pub fn select_candidate_permutations(
    state_bytes: &[u8],
    n_candidates: usize,
    s7: &Vec<Vec<usize>>,
    c6: &Vec<Vec<usize>>,
    d6: &Vec<Vec<usize>>,
) -> (routes: Vec<Vec<usize>>)
    requires
        n_candidates >= 1,
    ensures
        route_views(routes@) == candidate_routes(
            be_u32_value(crate::hashing::sha256_digest(state_bytes@)),
            s7@,
            c6@,
            d6@,
            n_candidates as int,
        ),
{
    let digest = sha256_bytes(state_bytes);
    let seed: u32 = (digest[0] as u32) * 16777216 + (digest[1] as u32) * 65536 + (digest[2] as u32) * 256
        + digest[3] as u32;
    candidates_from_seed(seed, n_candidates, s7, c6, d6)
}

} // verus!
