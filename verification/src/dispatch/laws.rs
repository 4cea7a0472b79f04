//! The guarantees of the bus, proved of the dispatch model.
//!
//! `Observer::send` promises to behave exactly like `run_steps`, so what is
//! proved here of the model holds of every wave the dispatcher runs.

use vstd::prelude::*;
use crate::dispatch::callback::Callback;
use crate::dispatch::model::{bucket, remove_first_id, run_row, run_steps, step, wave_start};
use crate::dispatch::model::{distinct_ids, lemma_first_match_exists, lemma_run_steps_stutter};
use crate::dispatch::model::{lemma_remove_first_id_absent, lemma_remove_first_id_found};
use crate::dispatch::model::Wave;
use crate::dispatch::observer::Listener;
use crate::event::Event;

verus! {

/// The invocations of one row are exactly its listeners in order, each
/// handed the one delivered event — whatever the context or the emissions.
pub proof fn lemma_run_row_calls<L: Callback>(row: Seq<Listener<L>>, ctx: L::Ctx, event: L::Ev)
    ensures
        run_row(row, ctx, event).calls == row.map_values(|l: Listener<L>| (l, event)),
    decreases row.len(),
{
    let f = |l: Listener<L>| (l, event);
    if row.len() == 0 {
        assert(run_row(row, ctx, event).calls =~= row.map_values(f));
    } else {
        let head = row[0].spec_callback().on_spec(ctx, event);
        lemma_run_row_calls(row.drop_first(), head.0, event);
        assert(run_row(row, ctx, event).calls =~= row.map_values(f));
    }
}

/// Registration-order dispatch: one dispatch step pops the front event and
/// calls exactly the listeners registered for its kind, in registration
/// order, each with that event.
pub proof fn lemma_registration_order<L: Callback>(listeners: Seq<Listener<L>>, w: Wave<L>)
    requires
        w.queue.len() > 0,
    ensures
        step(listeners, w).calls == w.calls + bucket(
            listeners,
            w.queue[0].kind_spec(),
        ).map_values(|l: Listener<L>| (l, w.queue[0])),
{
    lemma_run_row_calls(bucket(listeners, w.queue[0].kind_spec()), w.ctx, w.queue[0]);
}

/// Breadth-first nesting: however long a wave runs, its invocations begin
/// with the complete first segment — every listener of the submitted
/// event's bucket, in registration order, with that event — before any
/// invocation caused by an emitted event.
pub proof fn lemma_breadth_first<L: Callback>(
    listeners: Seq<Listener<L>>,
    event: L::Ev,
    ctx: L::Ctx,
    n: nat,
)
    requires
        n >= 1,
    ensures
        ({
            let first = bucket(listeners, event.kind_spec()).map_values(
                |l: Listener<L>| (l, event),
            );
            first.is_prefix_of(run_steps(listeners, wave_start(event, ctx), n).calls)
        }),
    decreases n,
{
    let first = bucket(listeners, event.kind_spec()).map_values(|l: Listener<L>| (l, event));
    let start = wave_start::<L>(event, ctx);
    if n == 1 {
        lemma_registration_order(listeners, start);
        assert(run_steps(listeners, start, 0) == start);
        let calls = run_steps(listeners, start, 1).calls;
        assert(run_steps(listeners, start, 1) == step(listeners, start));
        assert(calls =~= first);
        assert(first.is_prefix_of(calls)) by {
            assert(calls.subrange(0, first.len() as int) =~= first);
        }
    } else {
        lemma_breadth_first(listeners, event, ctx, (n - 1) as nat);
        let prev = run_steps(listeners, start, (n - 1) as nat);
        let next = run_steps(listeners, start, n);
        assert(next == step(listeners, prev));
        assert(first.is_prefix_of(next.calls)) by {
            if prev.queue.len() == 0 {
            } else {
                assert(prev.calls.is_prefix_of(next.calls)) by {
                    assert(next.calls.subrange(0, prev.calls.len() as int) =~= prev.calls);
                }
                assert(next.calls.subrange(0, first.len() as int) =~= prev.calls.subrange(
                    0,
                    first.len() as int,
                ));
            }
        }
    }
}

/// Deactivation removes exactly one registration: with distinct
/// registration numbers — as every registry issues them — removing the
/// registration of the entry at `i` removes that entry alone, even when
/// another entry wraps an equal callback.
pub proof fn lemma_deactivate_removes_exactly_one<L: Callback>(
    listeners: Seq<Listener<L>>,
    i: int,
    j: int,
)
    requires
        distinct_ids(listeners),
        0 <= i < listeners.len(),
        0 <= j < listeners.len(),
        i != j,
        listeners[i].spec_id() is Some,
    ensures
        remove_first_id(listeners, listeners[i].spec_id()) == listeners.remove(i),
        remove_first_id(listeners, listeners[i].spec_id()).len() == listeners.len() - 1,
        j < i ==> remove_first_id(listeners, listeners[i].spec_id())[j] == listeners[j],
        j > i ==> remove_first_id(listeners, listeners[i].spec_id())[j - 1] == listeners[j],
{
    lemma_remove_first_id_found(listeners, listeners[i].spec_id(), i);
}

/// Idempotent deactivate: with distinct registration numbers, removing the
/// same registration twice is removing it once.
pub proof fn lemma_deactivate_idempotent<L: Callback>(listeners: Seq<Listener<L>>, id: Option<u64>)
    requires
        distinct_ids(listeners),
    ensures
        remove_first_id(remove_first_id(listeners, id), id) == remove_first_id(listeners, id),
{
    if id is None {
    } else if exists|i: int| 0 <= i < listeners.len() && (#[trigger] listeners[i]).spec_id()
        == id {
        let j0 = choose|i: int|
            0 <= i < listeners.len() && (#[trigger] listeners[i]).spec_id() == id;
        lemma_first_match_exists(listeners, id, j0);
        let j = choose|j: int|
            0 <= j < listeners.len() && (#[trigger] listeners[j]).spec_id() == id && (forall|
                i: int,
            |
                0 <= i < j ==> (#[trigger] listeners[i]).spec_id() != id);
        lemma_remove_first_id_found(listeners, id, j);
        let out = listeners.remove(j);
        assert forall|k: int| 0 <= k < out.len() implies (#[trigger] out[k]).spec_id() != id by {
            if k < j {
                assert(out[k] == listeners[k]);
            } else {
                assert(out[k] == listeners[k + 1]);
            }
        }
        lemma_remove_first_id_absent(out, id);
    } else {
        lemma_remove_first_id_absent(listeners, id);
        lemma_remove_first_id_absent(remove_first_id(listeners, id), id);
    }
}

/// Every entry of a bucket accepts exactly the bucket's kind and stands in
/// the registry.
pub proof fn lemma_bucket_entries<L: Callback>(listeners: Seq<Listener<L>>, k: u64, m: int)
    requires
        0 <= m < bucket(listeners, k).len(),
    ensures
        bucket(listeners, k)[m].kind_spec() == k,
        exists|i: int| 0 <= i < listeners.len() && listeners[i] == bucket(listeners, k)[m],
    decreases listeners.len(),
{
    if listeners.len() == 0 {
    } else if listeners[0].kind_spec() == k {
        if m == 0 {
            assert(bucket(listeners, k)[0] == listeners[0]);
        } else {
            lemma_bucket_entries(listeners.drop_first(), k, m - 1);
            let i0 = choose|i: int|
                0 <= i < listeners.drop_first().len() && listeners.drop_first()[i] == bucket(
                    listeners.drop_first(),
                    k,
                )[m - 1];
            assert(listeners[i0 + 1] == bucket(listeners, k)[m]);
        }
    } else {
        lemma_bucket_entries(listeners.drop_first(), k, m);
        let i0 = choose|i: int|
            0 <= i < listeners.drop_first().len() && listeners.drop_first()[i] == bucket(
                listeners.drop_first(),
                k,
            )[m];
        assert(listeners[i0 + 1] == bucket(listeners, k)[m]);
    }
}

/// Unsubscribe, then notify: a registration number that no entry of the
/// registry carries is never invoked, however many steps the wave runs.
pub proof fn lemma_unsubscribed_never_called<L: Callback>(
    listeners: Seq<Listener<L>>,
    w: Wave<L>,
    id: u64,
    n: nat,
)
    requires
        forall|i: int|
            0 <= i < listeners.len() ==> (#[trigger] listeners[i]).spec_id() != Some(id),
        forall|c: int|
            0 <= c < w.calls.len() ==> (#[trigger] w.calls[c]).0.spec_id() != Some(id),
    ensures
        forall|c: int|
            0 <= c < run_steps(listeners, w, n).calls.len() ==> (#[trigger] run_steps(
                listeners,
                w,
                n,
            ).calls[c]).0.spec_id() != Some(id),
    decreases n,
{
    if n > 0 {
        lemma_unsubscribed_never_called(listeners, w, id, (n - 1) as nat);
        let prev = run_steps(listeners, w, (n - 1) as nat);
        let next = run_steps(listeners, w, n);
        if prev.queue.len() > 0 {
            let event = prev.queue[0];
            let row = bucket(listeners, event.kind_spec());
            lemma_run_row_calls(row, prev.ctx, event);
            assert forall|c: int| 0 <= c < next.calls.len() implies (#[trigger] next.calls[c]).0
                .spec_id() != Some(id) by {
                if c >= prev.calls.len() {
                    let m = c - prev.calls.len();
                    assert(next.calls[c] == row.map_values(|l: Listener<L>| (l, event))[m]);
                    lemma_bucket_entries(listeners, event.kind_spec(), m);
                }
            }
        }
    }
}

/// Type isolation: every invocation of a wave hands a listener an event of
/// exactly the kind it registered for; a listener for kind `k` is never
/// called with an event of another kind.
pub proof fn lemma_type_isolation<L: Callback>(listeners: Seq<Listener<L>>, w: Wave<L>, n: nat)
    requires
        forall|c: int|
            0 <= c < w.calls.len() ==> (#[trigger] w.calls[c]).0.kind_spec()
                == w.calls[c].1.kind_spec(),
    ensures
        forall|c: int|
            0 <= c < run_steps(listeners, w, n).calls.len() ==> (#[trigger] run_steps(
                listeners,
                w,
                n,
            ).calls[c]).0.kind_spec() == run_steps(listeners, w, n).calls[c].1.kind_spec(),
    decreases n,
{
    if n > 0 {
        lemma_type_isolation(listeners, w, (n - 1) as nat);
        let prev = run_steps(listeners, w, (n - 1) as nat);
        let next = run_steps(listeners, w, n);
        if prev.queue.len() > 0 {
            let event = prev.queue[0];
            let row = bucket(listeners, event.kind_spec());
            lemma_run_row_calls(row, prev.ctx, event);
            assert forall|c: int| 0 <= c < next.calls.len() implies (#[trigger] next.calls[c]).0
                .kind_spec() == next.calls[c].1.kind_spec() by {
                if c >= prev.calls.len() {
                    let m = c - prev.calls.len();
                    assert(next.calls[c] == row.map_values(|l: Listener<L>| (l, event))[m]);
                    lemma_bucket_entries(listeners, event.kind_spec(), m);
                }
            }
        }
    }
}

/// No listeners, no effect: a wave started by an event of a kind nobody
/// listens to leaves the context as it was, calls no listener, and drains
/// after its one step.
pub proof fn lemma_no_listeners_no_op<L: Callback>(
    listeners: Seq<Listener<L>>,
    event: L::Ev,
    ctx: L::Ctx,
    n: nat,
)
    requires
        bucket(listeners, event.kind_spec()).len() == 0,
    ensures
        run_steps(listeners, wave_start(event, ctx), n).ctx == ctx,
        run_steps(listeners, wave_start(event, ctx), n).calls == Seq::<(
            Listener<L>,
            L::Ev,
        )>::empty(),
        n >= 1 ==> run_steps(listeners, wave_start(event, ctx), n).queue.len() == 0,
    decreases n,
{
    if n > 0 {
        lemma_no_listeners_no_op(listeners, event, ctx, (n - 1) as nat);
        let prev = run_steps(listeners, wave_start(event, ctx), (n - 1) as nat);
        if prev.queue.len() > 0 {
            let eff = run_row(bucket(listeners, event.kind_spec()), prev.ctx, event);
            assert(prev.queue == seq![event]);
            assert(step(listeners, prev).queue =~= Seq::<L::Ev>::empty());
            assert(step(listeners, prev).calls =~= Seq::<(Listener<L>, L::Ev)>::empty());
        }
    }
}

/// A row of listeners that emit nothing in response to `event` emits
/// nothing as a whole.
pub proof fn lemma_run_row_no_emit<L: Callback>(row: Seq<Listener<L>>, ctx: L::Ctx, event: L::Ev)
    requires
        forall|m: int, c: L::Ctx|
            0 <= m < row.len() ==> (#[trigger] row[m].spec_callback().on_spec(c, event)).1
                == Seq::<L::Ev>::empty(),
    ensures
        run_row(row, ctx, event).emitted == Seq::<L::Ev>::empty(),
    decreases row.len(),
{
    if row.len() > 0 {
        let head = row[0].spec_callback().on_spec(ctx, event);
        let rest = row.drop_first();
        assert forall|m: int, c: L::Ctx|
            0 <= m < rest.len() implies (#[trigger] rest[m].spec_callback().on_spec(c, event)).1
            == Seq::<L::Ev>::empty() by {
            assert(rest[m] == row[m + 1]);
        }
        lemma_run_row_no_emit(rest, head.0, event);
        assert(head.1 + Seq::<L::Ev>::empty() =~= Seq::<L::Ev>::empty());
    }
}

/// Registration-order dispatch, whole-wave form: when every listener of
/// the submitted event's kind emits nothing in response to it, the wave
/// drains after its one step, and its invocations are exactly that
/// bucket, in registration order, each listener called exactly once with
/// the event. (A listener that re-emits events of its own kind is called
/// again for each of them — one call per dispatch step, in bucket order,
/// as `lemma_registration_order` states unconditionally.)
pub proof fn lemma_wave_calls_in_order<L: Callback>(
    listeners: Seq<Listener<L>>,
    event: L::Ev,
    ctx: L::Ctx,
    n: nat,
)
    requires
        n >= 1,
        forall|m: int, c: L::Ctx|
            0 <= m < bucket(listeners, event.kind_spec()).len() ==> (#[trigger] bucket(
                listeners,
                event.kind_spec(),
            )[m].spec_callback().on_spec(c, event)).1 == Seq::<L::Ev>::empty(),
    ensures
        run_steps(listeners, wave_start(event, ctx), n).calls == bucket(
            listeners,
            event.kind_spec(),
        ).map_values(|l: Listener<L>| (l, event)),
        run_steps(listeners, wave_start(event, ctx), n).queue.len() == 0,
{
    let row = bucket(listeners, event.kind_spec());
    let start = wave_start::<L>(event, ctx);
    lemma_run_row_calls(row, ctx, event);
    lemma_run_row_no_emit(row, ctx, event);
    assert(run_steps(listeners, start, 0) == start);
    let w1 = run_steps(listeners, start, 1);
    assert(w1 == step(listeners, start));
    assert(w1.queue =~= Seq::<L::Ev>::empty());
    assert(w1.calls =~= row.map_values(|l: Listener<L>| (l, event)));
    lemma_run_steps_stutter(listeners, start, 1, n);
}

/// Breadth-first nesting, scenario form: a first listener for the
/// submitted event's kind that emits exactly one follow-up event of a
/// second kind, a second listener of the first kind after it, and a third
/// listener of the second kind. The wave calls the first, then the
/// second, then the third — the third never runs between the first two —
/// and then drains.
pub proof fn lemma_breadth_first_scenario<L: Callback>(
    l1: Listener<L>,
    l2: Listener<L>,
    l3: Listener<L>,
    event: L::Ev,
    ctx: L::Ctx,
    n: nat,
)
    requires
        n >= 2,
        l1.kind_spec() == event.kind_spec(),
        l2.kind_spec() == event.kind_spec(),
        l3.kind_spec() != event.kind_spec(),
        forall|c: L::Ctx|
            ({
                let out = (#[trigger] l1.spec_callback().on_spec(c, event)).1;
                out.len() == 1 && out[0].kind_spec() == l3.kind_spec()
            }),
        forall|c: L::Ctx|
            (#[trigger] l2.spec_callback().on_spec(c, event)).1 == Seq::<L::Ev>::empty(),
        forall|c: L::Ctx, e: L::Ev|
            e.kind_spec() == l3.kind_spec() ==> (#[trigger] l3.spec_callback().on_spec(c, e)).1
                == Seq::<L::Ev>::empty(),
    ensures
        ({
            let w = run_steps(seq![l1, l2, l3], wave_start(event, ctx), n);
            w.queue.len() == 0 && w.calls.len() == 3 && w.calls[0] == (l1, event) && w.calls[1]
                == (l2, event) && w.calls[2].0 == l3 && w.calls[2].1 == l1.spec_callback().on_spec(
                ctx,
                event,
            ).1[0]
        }),
{
    let reg = seq![l1, l2, l3];
    let k = event.kind_spec();
    let kb = l3.kind_spec();
    let start = wave_start::<L>(event, ctx);
    let none = Seq::<Listener<L>>::empty();

    assert(reg.drop_first() =~= seq![l2, l3]);
    assert(seq![l2, l3].drop_first() =~= seq![l3]);
    assert(seq![l3].drop_first() =~= none);
    assert(bucket(none, k) == none);
    assert(seq![l2, l3][0] == l2);
    assert(seq![l3][0] == l3);
    assert(bucket(seq![l3], k) =~= none);
    assert(bucket(seq![l2, l3], k) =~= seq![l2]);
    assert(bucket(reg, k) =~= seq![l1, l2]);
    assert(bucket(none, kb) == none);
    assert(bucket(seq![l3], kb) =~= seq![l3]);
    assert(bucket(seq![l2, l3], kb) =~= seq![l3]);
    assert(bucket(reg, kb) =~= seq![l3]);

    let head1 = l1.spec_callback().on_spec(ctx, event);
    let out1 = head1.1;
    let head2 = l2.spec_callback().on_spec(head1.0, event);
    assert(seq![l1, l2].drop_first() =~= seq![l2]);
    assert(seq![l2].drop_first() =~= none);
    let eff0 = run_row(none, head2.0, event);
    assert(eff0.calls == Seq::<(Listener<L>, L::Ev)>::empty());
    let eff_l2 = run_row(seq![l2], head1.0, event);
    assert(seq![l2][0] == l2);
    assert(eff_l2.calls =~= seq![(l2, event)]);
    assert(eff_l2.emitted =~= Seq::<L::Ev>::empty());
    let eff1 = run_row(seq![l1, l2], ctx, event);
    assert(seq![l1, l2][0] == l1);
    assert(eff1.emitted =~= out1);
    assert(eff1.calls =~= seq![(l1, event), (l2, event)]);

    assert(run_steps(reg, start, 0) == start);
    let w1 = run_steps(reg, start, 1);
    assert(w1 == step(reg, start));
    assert(w1.queue =~= out1);
    assert(w1.calls =~= seq![(l1, event), (l2, event)]);

    let eb = out1[0];
    assert(eb.kind_spec() == kb);
    let head3 = l3.spec_callback().on_spec(eff1.ctx, eb);
    let eff2_rest = run_row(none, head3.0, eb);
    assert(eff2_rest.calls == Seq::<(Listener<L>, L::Ev)>::empty());
    let eff2 = run_row(seq![l3], eff1.ctx, eb);
    assert(seq![l3][0] == l3);
    assert(eff2.emitted =~= Seq::<L::Ev>::empty());
    assert(eff2.calls =~= seq![(l3, eb)]);

    let w2 = run_steps(reg, start, 2);
    assert(w2 == step(reg, w1));
    assert(w1.queue[0] == eb);
    assert(w2.queue =~= Seq::<L::Ev>::empty());
    assert(w2.calls =~= seq![(l1, event), (l2, event), (l3, eb)]);

    lemma_run_steps_stutter(reg, start, 2, n);
}

/// Deactivation removes exactly one, whole-wave form: two registrations
/// of one callback for one kind, the first deactivated; exactly the later
/// registration remains, and a wave of its kind calls it exactly once
/// when it emits nothing in response.
pub proof fn lemma_duplicate_registration_single_call<L: Callback>(
    h1: Listener<L>,
    h2: Listener<L>,
    event: L::Ev,
    ctx: L::Ctx,
    n: nat,
)
    requires
        n >= 1,
        h1.kind_spec() == event.kind_spec(),
        h2.kind_spec() == event.kind_spec(),
        h2.spec_callback() == h1.spec_callback(),
        h1.spec_id() is Some,
        h2.spec_id() is Some,
        h2.spec_id() != h1.spec_id(),
        forall|c: L::Ctx|
            (#[trigger] h1.spec_callback().on_spec(c, event)).1 == Seq::<L::Ev>::empty(),
    ensures
        remove_first_id(seq![h1, h2], h1.spec_id()) == seq![h2],
        run_steps(seq![h2], wave_start(event, ctx), n).calls == seq![(h2, event)],
        run_steps(seq![h2], wave_start(event, ctx), n).queue.len() == 0,
{
    assert(remove_first_id(seq![h1, h2], h1.spec_id()) =~= seq![h2]);
    let none = Seq::<Listener<L>>::empty();
    assert(seq![h2].drop_first() =~= none);
    assert(bucket(none, event.kind_spec()) == none);
    assert(bucket(seq![h2], event.kind_spec()) =~= seq![h2]);
    let row = bucket(seq![h2], event.kind_spec());
    assert forall|m: int, c: L::Ctx|
        0 <= m < row.len() implies (#[trigger] row[m].spec_callback().on_spec(c, event)).1
        == Seq::<L::Ev>::empty() by {
        assert(row[m] == h2);
    }
    lemma_wave_calls_in_order(seq![h2], event, ctx, n);
    assert(row.map_values(|l: Listener<L>| (l, event)) =~= seq![(h2, event)]);
}

} // verus!
