use vstd::prelude::*;
use crate::dispatch::callback::Callback;
use crate::dispatch::event_pool::EventPool;
use crate::dispatch::model::{bucket, remove_first_id, run_row, run_steps, wave_start};
use crate::dispatch::model::{distinct_ids, ids_below};
use crate::dispatch::model::{lemma_remove_first_id_wf, lemma_run_steps_stutter};
use crate::dispatch::model::Wave;
use crate::dispatch::observer::Listener;
use crate::dispatch::vec_listeners::VecListeners;
use crate::event::Event;

verus! {

/// Ceiling on the number of dispatch steps one wave may take. A listener
/// that re-sends without bound would otherwise keep the drain loop from
/// ever returning; a wave that reaches the ceiling stops and reports the
/// overflow instead.
pub const WAVE_LIMIT: u64 = u64::MAX;

/// The registry: every registered listener, in registration order, keyed
/// by the kind of event it accepts. The registry owns no event data.
///
/// Each activation is stamped with a registration number never issued
/// before by this registry; removal goes by that number alone, so equal
/// callbacks registered twice remain two separate registrations.
pub struct ObserverMap<L: Callback> {
    listeners: Vec<Listener<L>>,
    next_id: u64,
    tag: Ghost<int>,
}

impl<L: Callback> ObserverMap<L> {
    /// The registered listeners, in registration order.
    pub closed spec fn listeners_spec(&self) -> Seq<Listener<L>> {
        self.listeners@
    }

    /// The registration number the next activation will receive.
    pub closed spec fn next_id_spec(&self) -> u64 {
        self.next_id
    }

    /// The ghost tag of this registry. Every handle it activates is
    /// stamped with it, and removal demands it back: a handle can only be
    /// deactivated from the registry that issued its registration, so a
    /// handle is active in at most one registry at a time.
    pub closed spec fn tag_spec(&self) -> int {
        self.tag@
    }

    /// The registration number the next activation will receive; lets a
    /// caller check the headroom that `add` asks for.
    pub fn next_registration(&self) -> (r: u64)
        ensures
            r == self.next_id_spec(),
    {
        self.next_id
    }

    /// Well-formedness: every entry is stamped with a number below the
    /// next one to be issued, and no two entries share a number.
    pub open spec fn wf(&self) -> bool {
        ids_below(self.listeners_spec(), self.next_id_spec()) && distinct_ids(
            self.listeners_spec(),
        )
    }

    /// An empty registry.
    pub fn new() -> (r: Self)
        ensures
            r.listeners_spec() == Seq::<Listener<L>>::empty(),
            r.next_id_spec() == 0,
            r.wf(),
    {
        let ghost tag: int = arbitrary();
        ObserverMap { listeners: Vec::new(), next_id: 0, tag: Ghost(tag) }
    }

    /// Appends `new_listener` to the bucket for its kind — registration
    /// order is dispatch order — stamping it with a fresh registration
    /// number.
    pub fn add(&mut self, new_listener: &mut Listener<L>)
        requires
            old(self).next_id_spec() < u64::MAX,
            old(new_listener).spec_id() is Some ==> old(new_listener).spec_tag() == old(
                self,
            ).tag_spec(),
        ensures
            final(new_listener).spec_id() == Some(old(self).next_id_spec()),
            final(new_listener).spec_callback() == old(new_listener).spec_callback(),
            final(new_listener).spec_tag() == old(self).tag_spec(),
            final(self).listeners_spec() == old(self).listeners_spec().push(*final(new_listener)),
            final(self).next_id_spec() == old(self).next_id_spec() + 1,
            final(self).tag_spec() == old(self).tag_spec(),
            old(self).wf() ==> final(self).wf(),
    {
        new_listener.set_registration(self.next_id, Ghost(self.tag@));
        self.listeners.push(*new_listener);
        self.next_id = self.next_id + 1;
        proof {
            if ids_below(old(self).listeners_spec(), old(self).next_id_spec()) && distinct_ids(
                old(self).listeners_spec(),
            ) {
                let ls = self.listeners_spec();
                let prev = old(self).listeners_spec();
                assert forall|i: int| 0 <= i < ls.len() implies ((#[trigger] ls[i]).spec_id()
                    matches Some(n) && n < self.next_id_spec()) by {
                    if i < prev.len() {
                        assert(ls[i] == prev[i]);
                    }
                }
                assert forall|i: int, j: int|
                    #![trigger ls[i].spec_id(), ls[j].spec_id()]
                    0 <= i < j < ls.len() implies ls[i].spec_id() != ls[j].spec_id() by {
                    if j < prev.len() {
                        assert(ls[i] == prev[i] && ls[j] == prev[j]);
                    } else {
                        assert(ls[i] == prev[i]);
                        assert(ls[j].spec_id() == Some(old(self).next_id_spec()));
                    }
                }
            }
        }
    }

    /// Removes the registration named by `listener`, if an entry carries
    /// it; a no-op otherwise. Idempotent: removal never touches a second
    /// entry.
    pub fn remove(&mut self, listener: &Listener<L>)
        requires
            listener.spec_id() is Some ==> listener.spec_tag() == old(self).tag_spec(),
        ensures
            final(self).listeners_spec() == remove_first_id(
                old(self).listeners_spec(),
                listener.spec_id(),
            ),
            final(self).next_id_spec() == old(self).next_id_spec(),
            final(self).tag_spec() == old(self).tag_spec(),
            old(self).wf() ==> final(self).wf(),
    {
        self.listeners.remove_first(listener);
        proof {
            if old(self).wf() {
                lemma_remove_first_id_wf(
                    old(self).listeners_spec(),
                    listener.spec_id(),
                    old(self).next_id_spec(),
                );
            }
        }
    }

    /// The listeners registered for events of kind `event_type`, in
    /// registration order: the stable snapshot one dispatch step walks.
    pub fn listeners_for(&self, event_type: u64) -> (row: Vec<Listener<L>>)
        ensures
            row@ == bucket(self.listeners_spec(), event_type),
    {
        let mut row: Vec<Listener<L>> = Vec::new();
        let mut i: usize = 0;
        proof {
            assert(self.listeners@.skip(0) =~= self.listeners@);
            assert(Seq::<Listener<L>>::empty() + bucket(self.listeners@, event_type) =~= bucket(
                self.listeners@,
                event_type,
            ));
        }
        while i < self.listeners.len()
            invariant
                i <= self.listeners@.len(),
                bucket(self.listeners@, event_type) == row@ + bucket(
                    self.listeners@.skip(i as int),
                    event_type,
                ),
            decreases self.listeners@.len() - i,
        {
            let ghost row_prev = row@;
            let listener = self.listeners[i];
            if listener.event_type() == event_type {
                row.push(listener);
            }
            proof {
                let here = self.listeners@.skip(i as int);
                assert(here[0] == self.listeners@[i as int]);
                assert(here.drop_first() =~= self.listeners@.skip(i as int + 1));
                if listener.kind_spec() == event_type {
                    assert(row_prev + (seq![listener] + bucket(here.drop_first(), event_type))
                        =~= row@ + bucket(self.listeners@.skip(i as int + 1), event_type));
                }
            }
            i = i + 1;
        }
        proof {
            assert(self.listeners@.skip(i as int) =~= Seq::<Listener<L>>::empty());
            assert(row@ + Seq::<Listener<L>>::empty() =~= row@);
        }
        row
    }

    /// Delivers one popped event to every listener currently registered
    /// for its kind, in registration order; their emissions join the back
    /// of the pool.
    fn send_to_all_listeners(&self, ctx: &mut L::Ctx, event: &L::Ev, event_pool: &mut EventPool<
        L::Ev,
    >)
        ensures
            ({
                let eff = run_row(
                    bucket(self.listeners_spec(), event.kind_spec()),
                    *old(ctx),
                    *event,
                );
                *final(ctx) == eff.ctx && final(event_pool)@ == old(event_pool)@ + eff.emitted
            }),
    {
        let row = self.listeners_for(event.kind());
        row.notify_all(ctx, event, event_pool);
    }

    /// Submits one event and drains the wave it starts, breadth-first:
    /// pop the front event, run its bucket in registration order, append
    /// whatever was emitted, repeat until the queue is empty. Returns
    /// whether the wave drained completely; `false` only if re-entrant
    /// emission kept the queue non-empty for [`WAVE_LIMIT`] steps.
    pub fn send(&self, ctx: &mut L::Ctx, event: L::Ev) -> (complete: bool)
        ensures
            ({
                let w = run_steps(
                    self.listeners_spec(),
                    wave_start(event, *old(ctx)),
                    WAVE_LIMIT as nat,
                );
                *final(ctx) == w.ctx && complete == (w.queue.len() == 0)
            }),
    {
        let ghost start = wave_start::<L>(event, *ctx);
        let mut event_pool = EventPool::from(event);
        let mut pending: usize = event_pool.len();
        let mut remaining: u64 = WAVE_LIMIT;
        while pending > 0 && remaining > 0
            invariant
                remaining <= WAVE_LIMIT,
                pending == event_pool@.len(),
                ({
                    let w = run_steps(
                        self.listeners_spec(),
                        start,
                        (WAVE_LIMIT - remaining) as nat,
                    );
                    w.queue == event_pool@ && w.ctx == *ctx
                }),
            decreases remaining,
        {
            let ghost w_before = run_steps(
                self.listeners_spec(),
                start,
                (WAVE_LIMIT - remaining) as nat,
            );
            let front = event_pool.pop().unwrap();
            self.send_to_all_listeners(ctx, &front, &mut event_pool);
            pending = event_pool.len();
            remaining = remaining - 1;
            proof {
                let w_after = run_steps(
                    self.listeners_spec(),
                    start,
                    (WAVE_LIMIT - remaining) as nat,
                );
                assert(w_after == crate::dispatch::model::step(self.listeners_spec(), w_before));
            }
        }
        let complete = pending == 0;
        proof {
            let done = (WAVE_LIMIT - remaining) as nat;
            if complete {
                lemma_run_steps_stutter(self.listeners_spec(), start, done, WAVE_LIMIT as nat);
            }
        }
        complete
    }
}

} // verus!
