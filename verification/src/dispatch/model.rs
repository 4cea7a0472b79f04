//! The mathematical model of a dispatch wave.
//!
//! The exec dispatcher promises, clause for clause, to behave like the
//! functions here: `run_row` delivers one event to a row of listeners,
//! `step` processes the front event of the queue, and `run_steps` iterates
//! `step`. The laws of the bus are proved about this model.

use vstd::prelude::*;
use crate::dispatch::callback::Callback;
use crate::dispatch::observer::Listener;
use crate::event::Event;

verus! {

/// What one stretch of dispatch does: the context it leaves behind, the
/// events it emits, and the invocations it performs, in order. Each
/// invocation records the listener called and the event delivered to it.
pub struct Effect<L: Callback> {
    pub ctx: L::Ctx,
    pub emitted: Seq<L::Ev>,
    pub calls: Seq<(Listener<L>, L::Ev)>,
}

/// The state of a dispatch wave: the pending events (front first), the
/// shared context, and the invocations performed so far, in order.
pub struct Wave<L: Callback> {
    pub queue: Seq<L::Ev>,
    pub ctx: L::Ctx,
    pub calls: Seq<(Listener<L>, L::Ev)>,
}

/// The listeners of kind `k`, in registration order.
pub open spec fn bucket<L: Callback>(listeners: Seq<Listener<L>>, k: u64) -> Seq<Listener<L>>
    decreases listeners.len(),
{
    if listeners.len() == 0 {
        Seq::empty()
    } else if listeners[0].kind_spec() == k {
        seq![listeners[0]] + bucket(listeners.drop_first(), k)
    } else {
        bucket(listeners.drop_first(), k)
    }
}

/// `listeners` with the first entry of registration identity `id` removed;
/// unchanged when `id` is `None` or no entry carries it.
pub open spec fn remove_first_id<L: Callback>(
    listeners: Seq<Listener<L>>,
    id: Option<u64>,
) -> Seq<Listener<L>>
    decreases listeners.len(),
{
    if id is None || listeners.len() == 0 {
        listeners
    } else if listeners[0].spec_id() == id {
        listeners.drop_first()
    } else {
        seq![listeners[0]] + remove_first_id(listeners.drop_first(), id)
    }
}

/// Delivering one event to a row of listeners, front to back: each listener
/// sees the context its predecessors left, and the emissions concatenate in
/// call order.
pub open spec fn run_row<L: Callback>(
    row: Seq<Listener<L>>,
    ctx: L::Ctx,
    event: L::Ev,
) -> Effect<L>
    decreases row.len(),
{
    if row.len() == 0 {
        Effect { ctx, emitted: Seq::empty(), calls: Seq::empty() }
    } else {
        let head = row[0].spec_callback().on_spec(ctx, event);
        let rest = run_row(row.drop_first(), head.0, event);
        Effect {
            ctx: rest.ctx,
            emitted: head.1 + rest.emitted,
            calls: seq![(row[0], event)] + rest.calls,
        }
    }
}

/// One step of the drain loop: pop the front event, deliver it to the
/// bucket of its kind, and append whatever that wave segment emitted to the
/// back of the queue. A step on an empty queue changes nothing.
pub open spec fn step<L: Callback>(listeners: Seq<Listener<L>>, w: Wave<L>) -> Wave<L> {
    if w.queue.len() == 0 {
        w
    } else {
        let event = w.queue[0];
        let eff = run_row(bucket(listeners, event.kind_spec()), w.ctx, event);
        Wave {
            queue: w.queue.drop_first() + eff.emitted,
            ctx: eff.ctx,
            calls: w.calls + eff.calls,
        }
    }
}

/// `n` steps of the drain loop.
pub open spec fn run_steps<L: Callback>(listeners: Seq<Listener<L>>, w: Wave<L>, n: nat) -> Wave<L>
    decreases n,
{
    if n == 0 {
        w
    } else {
        step(listeners, run_steps(listeners, w, (n - 1) as nat))
    }
}

/// The wave that an external `send(event)` starts: one queued event, no
/// invocations performed yet.
pub open spec fn wave_start<L: Callback>(event: L::Ev, ctx: L::Ctx) -> Wave<L> {
    Wave { queue: seq![event], ctx, calls: Seq::empty() }
}

/// Every listener of the row is registered, with a number below `bound`.
pub open spec fn ids_below<L: Callback>(listeners: Seq<Listener<L>>, bound: u64) -> bool {
    forall|i: int|
        0 <= i < listeners.len() ==> ((#[trigger] listeners[i]).spec_id() matches Some(id)
            && id < bound)
}

/// No two listeners of the row share a registration number.
pub open spec fn distinct_ids<L: Callback>(listeners: Seq<Listener<L>>) -> bool {
    forall|i: int, j: int|
        #![trigger listeners[i].spec_id(), listeners[j].spec_id()]
        0 <= i < j < listeners.len() ==> listeners[i].spec_id() != listeners[j].spec_id()
}

/// Once the queue is drained, further steps change nothing.
pub proof fn lemma_run_steps_stutter<L: Callback>(
    listeners: Seq<Listener<L>>,
    w: Wave<L>,
    m: nat,
    n: nat,
)
    requires
        m <= n,
        run_steps(listeners, w, m).queue.len() == 0,
    ensures
        run_steps(listeners, w, n) == run_steps(listeners, w, m),
    decreases n,
{
    if n > m {
        lemma_run_steps_stutter(listeners, w, m, (n - 1) as nat);
    }
}

/// Removing a registration number that is present removes exactly the
/// first entry carrying it.
pub proof fn lemma_remove_first_id_found<L: Callback>(
    listeners: Seq<Listener<L>>,
    id: Option<u64>,
    j: int,
)
    requires
        id is Some,
        0 <= j < listeners.len(),
        listeners[j].spec_id() == id,
        forall|i: int| 0 <= i < j ==> (#[trigger] listeners[i]).spec_id() != id,
    ensures
        remove_first_id(listeners, id) == listeners.remove(j),
    decreases j,
{
    if j == 0 {
        assert(remove_first_id(listeners, id) =~= listeners.remove(0));
    } else {
        lemma_remove_first_id_found(listeners.drop_first(), id, j - 1);
        assert(remove_first_id(listeners, id) =~= listeners.remove(j));
    }
}

/// Removing a registration number that no entry carries changes nothing.
pub proof fn lemma_remove_first_id_absent<L: Callback>(listeners: Seq<Listener<L>>, id: Option<u64>)
    requires
        forall|i: int| 0 <= i < listeners.len() ==> (#[trigger] listeners[i]).spec_id() != id,
    ensures
        remove_first_id(listeners, id) == listeners,
    decreases listeners.len(),
{
    if id is Some && listeners.len() > 0 {
        lemma_remove_first_id_absent(listeners.drop_first(), id);
        assert(remove_first_id(listeners, id) =~= listeners);
    }
}

/// A removal keeps the row well-formed: the surviving registration numbers
/// stay below the bound and stay distinct.
pub proof fn lemma_remove_first_id_wf<L: Callback>(
    listeners: Seq<Listener<L>>,
    id: Option<u64>,
    bound: u64,
)
    requires
        ids_below(listeners, bound),
        distinct_ids(listeners),
    ensures
        ids_below(remove_first_id(listeners, id), bound),
        distinct_ids(remove_first_id(listeners, id)),
{
    if id is None {
        // Nothing is removed.
    } else if exists|i: int| 0 <= i < listeners.len() && (#[trigger] listeners[i]).spec_id()
        == id {
        let j0 = choose|i: int|
            0 <= i < listeners.len() && (#[trigger] listeners[i]).spec_id() == id;
        lemma_first_match_exists(listeners, id, j0);
        let j = choose|j: int|
            0 <= j < listeners.len() && (#[trigger] listeners[j]).spec_id() == id && (forall|
                i: int,
            |
                0 <= i < j ==> (#[trigger] listeners[i]).spec_id() != id);
        lemma_remove_first_id_found(listeners, id, j);
        let out = listeners.remove(j);
        assert forall|k: int| 0 <= k < out.len() implies ((#[trigger] out[k]).spec_id()
            matches Some(n) && n < bound) by {
            if k < j {
                assert(out[k] == listeners[k]);
            } else {
                assert(out[k] == listeners[k + 1]);
            }
        }
        assert forall|k1: int, k2: int|
            #![trigger out[k1].spec_id(), out[k2].spec_id()]
            0 <= k1 < k2 < out.len() implies out[k1].spec_id() != out[k2].spec_id() by {
            let i1: int = if k1 < j { k1 } else { k1 + 1 };
            let i2: int = if k2 < j { k2 } else { k2 + 1 };
            assert(out[k1] == listeners[i1]);
            assert(out[k2] == listeners[i2]);
        }
    } else {
        lemma_remove_first_id_absent(listeners, id);
    }
}

/// Ahead of any matching position stands a first matching position.
pub(crate) proof fn lemma_first_match_exists<L: Callback>(listeners: Seq<Listener<L>>, id: Option<u64>, j0: int)
    requires
        0 <= j0 < listeners.len(),
        listeners[j0].spec_id() == id,
    ensures
        exists|j: int|
            0 <= j < listeners.len() && (#[trigger] listeners[j]).spec_id() == id && forall|i: int|
                0 <= i < j ==> (#[trigger] listeners[i]).spec_id() != id,
    decreases j0,
{
    if forall|i: int| 0 <= i < j0 ==> (#[trigger] listeners[i]).spec_id() != id {
        assert(listeners[j0].spec_id() == id);
    } else {
        let j1 = choose|i: int| 0 <= i < j0 && (#[trigger] listeners[i]).spec_id() == id;
        lemma_first_match_exists(listeners, id, j1);
    }
}

} // verus!
