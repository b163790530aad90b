//! A run as a transition system. The registry's methods are each one atomic
//! step under its lock, so any concurrent run linearizes to a sequence of
//! these steps; the proofs here state what every such sequence preserves:
//! conservation of resources, no duplication, a monotonic stop signal, and
//! what K competing `pop` calls can return.
//!
//! Resources carry an identity given at seeding time, so that two resources
//! with equal URIs stay distinguishable.

use vstd::prelude::*;
use crate::resource::{fresh_resource, ResourceView};

verus! {

/// A resource together with the identity it got at seeding time.
pub struct TrackedResource {
    /// Position in the initial resource set.
    pub id: nat,
    /// The resource's value.
    pub res: ResourceView,
}

/// The state of one run: what the registry holds, plus the resources that
/// workers have popped but not yet completed ("in flight"), keyed by
/// identity.
pub struct RunState {
    /// Not yet handed to any worker, in stack order.
    pub todo: Seq<TrackedResource>,
    /// Popped but not yet completed, with the URI each was created from.
    pub in_flight: Map<nat, ResourceView>,
    /// Completed, in completion order.
    pub done: Seq<TrackedResource>,
    /// The stop signal.
    pub captcha: bool,
    /// Size of the initial resource set.
    pub total: nat,
}

/// One atomic step of a run.
pub enum RunStep {
    /// A worker pops the next resource; enabled only when work is left — a
    /// pop on an empty registry changes nothing.
    Pop,
    /// The worker holding the in-flight resource `id` records its classified
    /// value `res`.
    Finish { id: nat, res: ResourceView },
}

/// The state a freshly seeded registry is in: every resource unclassified and
/// in `todo`, nothing in flight, nothing done, signal down.
pub open spec fn init_state(uris: Seq<Seq<char>>) -> RunState {
    RunState {
        todo: Seq::new(
            uris.len(),
            |i: int| TrackedResource { id: i as nat, res: fresh_resource(uris[i]) },
        ),
        in_flight: Map::empty(),
        done: Seq::empty(),
        captcha: false,
        total: uris.len(),
    }
}

/// Whether a step can fire in a state.
pub open spec fn step_enabled(s: RunState, step: RunStep) -> bool {
    match step {
        RunStep::Pop => s.todo.len() > 0,
        RunStep::Finish { id, res } => s.in_flight.dom().contains(id) && res.uri
            == s.in_flight[id].uri,
    }
}

/// The state after a step: `Pop` moves the last `todo` entry into flight;
/// `Finish` moves an in-flight resource into `done` with its classified
/// value, raising the signal iff that value saw the captcha marker. These
/// are exactly the changes that the registry's `pop` and `complete`
/// (or `finish`) promise in their contracts.
pub open spec fn apply_step(s: RunState, step: RunStep) -> RunState {
    match step {
        RunStep::Pop => RunState {
            todo: s.todo.drop_last(),
            in_flight: s.in_flight.insert(s.todo.last().id, s.todo.last().res),
            ..s
        },
        RunStep::Finish { id, res } => RunState {
            in_flight: s.in_flight.remove(id),
            done: s.done.push(TrackedResource { id, res }),
            captcha: s.captcha || res.captcha,
            ..s
        },
    }
}

/// No identity occurs twice anywhere across `todo`, in-flight and `done`.
pub open spec fn distinct_ids(s: RunState) -> bool {
    &&& forall|i: int, j: int|
        0 <= i < j < s.todo.len() ==> (#[trigger] s.todo[i]).id != (#[trigger] s.todo[j]).id
    &&& forall|i: int, j: int|
        0 <= i < j < s.done.len() ==> (#[trigger] s.done[i]).id != (#[trigger] s.done[j]).id
    &&& forall|i: int| 0 <= i < s.todo.len() ==> !s.in_flight.dom().contains(
        (#[trigger] s.todo[i]).id,
    )
    &&& forall|i: int| 0 <= i < s.done.len() ==> !s.in_flight.dom().contains(
        (#[trigger] s.done[i]).id,
    )
    &&& forall|i: int, j: int|
        0 <= i < s.todo.len() && 0 <= j < s.done.len() ==> (#[trigger] s.todo[i]).id != (
        #[trigger] s.done[j]).id
}

/// The run invariant: resources are conserved — `todo`, in-flight and `done`
/// together always hold exactly the initial resource set's count — and no
/// identity is ever duplicated.
pub open spec fn inv(s: RunState) -> bool {
    &&& s.in_flight.dom().finite()
    &&& s.todo.len() + s.in_flight.dom().len() + s.done.len() == s.total
    &&& distinct_ids(s)
}

/// A freshly seeded run satisfies the invariant.
pub proof fn lemma_init_inv(uris: Seq<Seq<char>>)
    ensures
        inv(init_state(uris)),
{
    let s = init_state(uris);
    assert(s.in_flight.dom() =~= Set::<nat>::empty());
}

/// Every enabled step preserves the invariant, keeps the initial count, and
/// never lowers the stop signal.
pub proof fn lemma_step_inv(s: RunState, step: RunStep)
    requires
        inv(s),
        step_enabled(s, step),
    ensures
        inv(apply_step(s, step)),
        apply_step(s, step).total == s.total,
        s.captcha ==> apply_step(s, step).captcha,
{
    let post = apply_step(s, step);
    match step {
        RunStep::Pop => {
            let id = s.todo.last().id;
            assert(!s.in_flight.dom().contains(id));
            assert(post.in_flight.dom() =~= s.in_flight.dom().insert(id));
            vstd::set::axiom_set_insert_len(s.in_flight.dom(), id);
            assert(forall|i: int|
                0 <= i < post.todo.len() ==> post.todo[i] == s.todo[i]);
        },
        RunStep::Finish { id, res } => {
            assert(post.in_flight.dom() =~= s.in_flight.dom().remove(id));
            vstd::set::axiom_set_remove_len(s.in_flight.dom(), id);
            assert(forall|i: int|
                0 <= i < s.done.len() ==> post.done[i] == s.done[i]);
            assert(post.done.last().id == id);
        },
    }
}

/// Every tracked resource still carries the URI it was seeded with: a worker
/// classifies a resource but never changes its URI.
pub open spec fn uris_faithful(s: RunState, uris: Seq<Seq<char>>) -> bool {
    &&& forall|i: int|
        0 <= i < s.todo.len() ==> (#[trigger] s.todo[i]).id < uris.len() && s.todo[i].res.uri
            == uris[s.todo[i].id as int]
    &&& forall|id: nat|
        #[trigger] s.in_flight.dom().contains(id) ==> id < uris.len() && s.in_flight[id].uri
            == uris[id as int]
    &&& forall|i: int|
        0 <= i < s.done.len() ==> (#[trigger] s.done[i]).id < uris.len() && s.done[i].res.uri
            == uris[s.done[i].id as int]
}

/// A freshly seeded run is faithful to its URIs.
proof fn lemma_init_faithful(uris: Seq<Seq<char>>)
    ensures
        uris_faithful(init_state(uris), uris),
{
}

/// Every enabled step keeps the run faithful to its URIs.
proof fn lemma_step_faithful(s: RunState, step: RunStep, uris: Seq<Seq<char>>)
    requires
        uris_faithful(s, uris),
        step_enabled(s, step),
    ensures
        uris_faithful(apply_step(s, step), uris),
{
    let post = apply_step(s, step);
    match step {
        RunStep::Pop => {
            assert(forall|i: int| 0 <= i < post.todo.len() ==> post.todo[i] == s.todo[i]);
        },
        RunStep::Finish { id, res } => {
            assert(forall|i: int| 0 <= i < s.done.len() ==> post.done[i] == s.done[i]);
            assert(post.done.last() == TrackedResource { id, res });
        },
    }
}

/// The state after a sequence of steps.
pub open spec fn run_post(s0: RunState, steps: Seq<RunStep>) -> RunState
    decreases steps.len(),
{
    if steps.len() == 0 {
        s0
    } else {
        apply_step(run_post(s0, steps.drop_last()), steps.last())
    }
}

/// Every step of the sequence fires in the state the previous ones produce.
pub open spec fn run_enabled(s0: RunState, steps: Seq<RunStep>) -> bool
    decreases steps.len(),
{
    if steps.len() == 0 {
        true
    } else {
        run_enabled(s0, steps.drop_last()) && step_enabled(
            run_post(s0, steps.drop_last()),
            steps.last(),
        )
    }
}

/// The invariant holds in every state reachable from a seeded registry.
pub proof fn lemma_run_inv(uris: Seq<Seq<char>>, steps: Seq<RunStep>)
    requires
        run_enabled(init_state(uris), steps),
    ensures
        inv(run_post(init_state(uris), steps)),
        run_post(init_state(uris), steps).total == uris.len(),
    decreases steps.len(),
{
    if steps.len() == 0 {
        lemma_init_inv(uris);
    } else {
        lemma_run_inv(uris, steps.drop_last());
        lemma_step_inv(run_post(init_state(uris), steps.drop_last()), steps.last());
    }
}

/// Conservation: in every state a run can reach, the resources in `todo`, in
/// flight and in `done` together number exactly the initial resource set.
pub proof fn lemma_conservation(uris: Seq<Seq<char>>, steps: Seq<RunStep>)
    requires
        run_enabled(init_state(uris), steps),
    ensures
        ({
            let s = run_post(init_state(uris), steps);
            s.todo.len() + s.in_flight.dom().len() + s.done.len() == uris.len()
        }),
{
    lemma_run_inv(uris, steps);
}

/// No duplication: in every reachable state, no resource identity is both in
/// `todo` and in `done`, and none occurs twice in `done`.
pub proof fn lemma_no_duplication(uris: Seq<Seq<char>>, steps: Seq<RunStep>)
    requires
        run_enabled(init_state(uris), steps),
    ensures
        ({
            let s = run_post(init_state(uris), steps);
            &&& forall|i: int, j: int|
                0 <= i < j < s.done.len() ==> (#[trigger] s.done[i]).id != (
                #[trigger] s.done[j]).id
            &&& forall|i: int, j: int|
                0 <= i < s.todo.len() && 0 <= j < s.done.len() ==> (#[trigger] s.todo[i]).id != (
                #[trigger] s.done[j]).id
        }),
{
    lemma_run_inv(uris, steps);
}

/// Every reachable state is faithful to the seeded URIs.
proof fn lemma_run_faithful(uris: Seq<Seq<char>>, steps: Seq<RunStep>)
    requires
        run_enabled(init_state(uris), steps),
    ensures
        uris_faithful(run_post(init_state(uris), steps), uris),
    decreases steps.len(),
{
    if steps.len() == 0 {
        lemma_init_faithful(uris);
    } else {
        lemma_run_faithful(uris, steps.drop_last());
        lemma_step_faithful(run_post(init_state(uris), steps.drop_last()), steps.last(), uris);
    }
}

/// When the seeded URIs are pairwise distinct, no URI is ever both in `todo`
/// and in `done`, nor twice in `done`. (Two input lines with the same URI
/// seed two resources that both legitimately reach `done`, so distinctness of
/// the input is needed here; identities are distinct unconditionally.)
pub proof fn lemma_no_duplicate_uris(uris: Seq<Seq<char>>, steps: Seq<RunStep>)
    requires
        run_enabled(init_state(uris), steps),
        forall|a: int, b: int| 0 <= a < b < uris.len() ==> uris[a] != uris[b],
    ensures
        ({
            let s = run_post(init_state(uris), steps);
            &&& forall|i: int, j: int|
                0 <= i < j < s.done.len() ==> (#[trigger] s.done[i]).res.uri != (
                #[trigger] s.done[j]).res.uri
            &&& forall|i: int, j: int|
                0 <= i < s.todo.len() && 0 <= j < s.done.len() ==> (
                #[trigger] s.todo[i]).res.uri != (#[trigger] s.done[j]).res.uri
        }),
{
    lemma_run_inv(uris, steps);
    lemma_run_faithful(uris, steps);
    assert forall|a: int, b: int|
        0 <= a < uris.len() && 0 <= b < uris.len() && a != b implies uris[a] != uris[b] by {}
}

/// The stop signal is monotonic: once up in a run, it stays up through every
/// later step.
pub proof fn lemma_signal_monotonic(s0: RunState, steps: Seq<RunStep>)
    requires
        s0.captcha,
    ensures
        run_post(s0, steps).captcha,
    decreases steps.len(),
{
    if steps.len() > 0 {
        lemma_signal_monotonic(s0, steps.drop_last());
    }
}

/// The results that K `pop` calls return once linearized against a registry
/// holding `todo`: each call in turn takes the resource the registry hands
/// out next, or returns nothing once the registry is empty.
pub open spec fn pop_results(todo: Seq<TrackedResource>, k: nat) -> Seq<Option<TrackedResource>>
    decreases k,
{
    if k == 0 {
        Seq::empty()
    } else if todo.len() == 0 {
        seq![None] + pop_results(todo, (k - 1) as nat)
    } else {
        seq![Some(todo.last())] + pop_results(todo.drop_last(), (k - 1) as nat)
    }
}

/// How many of the results carry a resource.
pub open spec fn count_successes(rs: Seq<Option<TrackedResource>>) -> nat
    decreases rs.len(),
{
    if rs.len() == 0 {
        0
    } else {
        count_successes(rs.drop_last()) + if rs.last() is Some {
            1nat
        } else {
            0nat
        }
    }
}

/// Exactly which resource each of the K calls receives: the a-th call gets
/// the a-th resource from the top while any are left, and nothing after that.
proof fn lemma_pop_results_exact(todo: Seq<TrackedResource>, k: nat)
    ensures
        pop_results(todo, k).len() == k,
        forall|a: int|
            0 <= a < k && a < todo.len() ==> (#[trigger] pop_results(todo, k)[a]) == Some(
                todo[todo.len() - 1 - a],
            ),
        forall|a: int| todo.len() <= a < k ==> (#[trigger] pop_results(todo, k)[a]) is None,
    decreases k,
{
    if k > 0 {
        let rs = pop_results(todo, k);
        if todo.len() == 0 {
            lemma_pop_results_exact(todo, (k - 1) as nat);
            let rest = pop_results(todo, (k - 1) as nat);
            assert forall|a: int| todo.len() <= a < k implies (#[trigger] rs[a]) is None by {
                if a > 0 {
                    assert(rs[a] == rest[a - 1]);
                }
            }
        } else {
            let pre = todo.drop_last();
            lemma_pop_results_exact(pre, (k - 1) as nat);
            let rest = pop_results(pre, (k - 1) as nat);
            assert forall|a: int| 0 <= a < k && a < todo.len() implies (#[trigger] rs[a]) == Some(
                todo[todo.len() - 1 - a],
            ) by {
                if a > 0 {
                    assert(rs[a] == rest[a - 1]);
                    assert(rest[a - 1] == Some(pre[pre.len() - 1 - (a - 1)]));
                    assert(pre[pre.len() - 1 - (a - 1)] == todo[todo.len() - 1 - a]);
                }
            }
            assert forall|a: int| todo.len() <= a < k implies (#[trigger] rs[a]) is None by {
                assert(rs[a] == rest[a - 1]);
            }
        }
    }
}

/// When exactly the first `m` results carry a resource, the successes number
/// `m`.
proof fn lemma_count_first_m(rs: Seq<Option<TrackedResource>>, m: int)
    requires
        0 <= m <= rs.len(),
        forall|a: int| 0 <= a < rs.len() ==> ((#[trigger] rs[a]) is Some <==> a < m),
    ensures
        count_successes(rs) == m,
    decreases rs.len(),
{
    if rs.len() > 0 {
        let pre = rs.drop_last();
        if m == rs.len() {
            assert(rs.last() is Some);
            assert forall|a: int| 0 <= a < pre.len() implies ((#[trigger] pre[a]) is Some <==> a
                < m - 1) by {
                assert(pre[a] == rs[a]);
            }
            lemma_count_first_m(pre, m - 1);
        } else {
            assert(!(rs.last() is Some));
            assert forall|a: int| 0 <= a < pre.len() implies ((#[trigger] pre[a]) is Some <==> a
                < m) by {
                assert(pre[a] == rs[a]);
            }
            lemma_count_first_m(pre, m);
        }
    }
}

/// Pop linearizability: when K `pop` calls race for a registry holding M
/// resources with distinct identities, exactly `min(K, M)` of them receive a
/// resource, each a distinct one, and every further call receives nothing.
pub proof fn lemma_pop_linearizability(todo: Seq<TrackedResource>, k: nat)
    requires
        forall|i: int, j: int|
            0 <= i < j < todo.len() ==> (#[trigger] todo[i]).id != (#[trigger] todo[j]).id,
    ensures
        pop_results(todo, k).len() == k,
        count_successes(pop_results(todo, k)) == if k <= todo.len() {
            k as int
        } else {
            todo.len() as int
        },
        forall|a: int|
            0 <= a < k ==> ((#[trigger] pop_results(todo, k)[a]) is Some <==> a < todo.len()),
        forall|a: int, b: int|
            0 <= a < b < k ==> ((#[trigger] pop_results(todo, k)[a]) matches Some(ta) ==> ((
            #[trigger] pop_results(todo, k)[b]) matches Some(tb) ==> ta.id != tb.id)),
{
    lemma_pop_results_exact(todo, k);
    let rs = pop_results(todo, k);
    let m = if k <= todo.len() {
        k as int
    } else {
        todo.len() as int
    };
    assert forall|a: int| 0 <= a < k implies ((#[trigger] rs[a]) is Some <==> a < todo.len()) by {}
    lemma_count_first_m(rs, m);
    assert forall|a: int, b: int| 0 <= a < b < k implies ((#[trigger] rs[a]) matches Some(ta)
        ==> ((#[trigger] rs[b]) matches Some(tb) ==> ta.id != tb.id)) by {
        if a < todo.len() && b < todo.len() {
            assert(rs[a] == Some(todo[todo.len() - 1 - a]));
            assert(rs[b] == Some(todo[todo.len() - 1 - b]));
        }
    }
}

/// The resource values a tracked sequence carries, identities erased.
pub open spec fn views_of(s: Seq<TrackedResource>) -> Seq<ResourceView> {
    s.map_values(|t: TrackedResource| t.res)
}

/// A freshly seeded registry is the registry part of an initial model state:
/// whenever every resource of a `todo` sequence is unclassified — as the
/// seeding constructor guarantees — that sequence is `init_state`'s `todo`
/// over the same URIs, identities erased.
pub proof fn lemma_seeded_matches_init(todo: Seq<ResourceView>)
    requires
        forall|k: int|
            0 <= k < todo.len() ==> (#[trigger] todo[k]) == fresh_resource(todo[k].uri),
    ensures
        views_of(init_state(todo.map_values(|r: ResourceView| r.uri)).todo) == todo,
{
    let uris = todo.map_values(|r: ResourceView| r.uri);
    assert(views_of(init_state(uris).todo) =~= todo);
}

/// The `Pop` transition changes the registry exactly as the exec `pop`
/// promises on its view: `todo` loses its last resource, `done` and the
/// signal stay.
pub proof fn lemma_pop_matches_exec(s: RunState)
    requires
        step_enabled(s, RunStep::Pop),
    ensures
        views_of(apply_step(s, RunStep::Pop).todo) == views_of(s.todo).drop_last(),
        views_of(s.todo).last() == s.todo.last().res,
        apply_step(s, RunStep::Pop).done == s.done,
        apply_step(s, RunStep::Pop).captcha == s.captcha,
{
    assert(views_of(s.todo.drop_last()) =~= views_of(s.todo).drop_last());
}

/// The `Finish` transition changes the registry exactly as the exec
/// `complete` (and so `finish`) promises on its view: `done` grows by the
/// classified resource, the signal rises iff that resource saw the marker,
/// `todo` stays.
pub proof fn lemma_finish_matches_exec(s: RunState, id: nat, res: ResourceView)
    requires
        step_enabled(s, RunStep::Finish { id, res }),
    ensures
        views_of(apply_step(s, RunStep::Finish { id, res }).done) == views_of(s.done).push(res),
        apply_step(s, RunStep::Finish { id, res }).captcha == (s.captcha || res.captcha),
        apply_step(s, RunStep::Finish { id, res }).todo == s.todo,
{
    assert(views_of(s.done.push(TrackedResource { id, res })) =~= views_of(s.done).push(res));
}

} // verus!
