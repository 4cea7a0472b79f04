use vstd::prelude::*;
use crate::direct::subscriber::{Subscriber, Update};
use crate::event::Event;

verus! {

/// The subscribers of kind `k`, in subscription order.
pub open spec fn bucket_of<C: Update>(subs: Seq<Subscriber<C>>, k: u64) -> Seq<Subscriber<C>>
    decreases subs.len(),
{
    if subs.len() == 0 {
        Seq::empty()
    } else if subs[0].kind_spec() == k {
        seq![subs[0]] + bucket_of(subs.drop_first(), k)
    } else {
        bucket_of(subs.drop_first(), k)
    }
}

/// Folding one event through a row of subscribers, front to back: each
/// callback sees the context its predecessors left.
pub open spec fn update_all<C: Update>(row: Seq<Subscriber<C>>, ctx: C::Ctx, event: C::Ev) -> C::Ctx
    decreases row.len(),
{
    if row.len() == 0 {
        ctx
    } else {
        update_all(row.drop_first(), row[0].spec_callback().update_spec(ctx, event), event)
    }
}

/// `subs` with the first entry of registration identity `id` removed;
/// unchanged when `id` is `None` or no entry carries it.
pub open spec fn remove_first_sub<C: Update>(
    subs: Seq<Subscriber<C>>,
    id: Option<u64>,
) -> Seq<Subscriber<C>>
    decreases subs.len(),
{
    if id is None || subs.len() == 0 {
        subs
    } else if subs[0].spec_id() == id {
        subs.drop_first()
    } else {
        seq![subs[0]] + remove_first_sub(subs.drop_first(), id)
    }
}

/// Removing a registration number that is present removes exactly the
/// first entry carrying it.
proof fn lemma_remove_first_sub_found<C: Update>(subs: Seq<Subscriber<C>>, id: Option<u64>, j: int)
    requires
        id is Some,
        0 <= j < subs.len(),
        subs[j].spec_id() == id,
        forall|i: int| 0 <= i < j ==> (#[trigger] subs[i]).spec_id() != id,
    ensures
        remove_first_sub(subs, id) == subs.remove(j),
    decreases j,
{
    if j == 0 {
        assert(remove_first_sub(subs, id) =~= subs.remove(0));
    } else {
        lemma_remove_first_sub_found(subs.drop_first(), id, j - 1);
        assert(remove_first_sub(subs, id) =~= subs.remove(j));
    }
}

/// Removing a registration number that no entry carries changes nothing.
proof fn lemma_remove_first_sub_absent<C: Update>(subs: Seq<Subscriber<C>>, id: Option<u64>)
    requires
        forall|i: int| 0 <= i < subs.len() ==> (#[trigger] subs[i]).spec_id() != id,
    ensures
        remove_first_sub(subs, id) == subs,
    decreases subs.len(),
{
    if id is Some && subs.len() > 0 {
        lemma_remove_first_sub_absent(subs.drop_first(), id);
        assert(remove_first_sub(subs, id) =~= subs);
    }
}

/// Ahead of any matching position stands a first matching position.
proof fn lemma_first_sub_match<C: Update>(subs: Seq<Subscriber<C>>, id: Option<u64>, j0: int)
    requires
        0 <= j0 < subs.len(),
        subs[j0].spec_id() == id,
    ensures
        exists|j: int|
            0 <= j < subs.len() && (#[trigger] subs[j]).spec_id() == id && forall|i: int|
                0 <= i < j ==> (#[trigger] subs[i]).spec_id() != id,
    decreases j0,
{
    if forall|i: int| 0 <= i < j0 ==> (#[trigger] subs[i]).spec_id() != id {
        assert(subs[j0].spec_id() == id);
    } else {
        let j1 = choose|i: int| 0 <= i < j0 && (#[trigger] subs[i]).spec_id() == id;
        lemma_first_sub_match(subs, id, j1);
    }
}

/// A removal keeps the register well-formed.
proof fn lemma_remove_first_sub_wf<C: Update>(subs: Seq<Subscriber<C>>, id: Option<u64>, bound: u64)
    requires
        forall|i: int|
            0 <= i < subs.len() ==> ((#[trigger] subs[i]).spec_id() matches Some(n) && n < bound),
        forall|i: int, j: int|
            #![trigger subs[i].spec_id(), subs[j].spec_id()]
            0 <= i < j < subs.len() ==> subs[i].spec_id() != subs[j].spec_id(),
    ensures
        forall|i: int|
            0 <= i < remove_first_sub(subs, id).len() ==> ((#[trigger] remove_first_sub(
                subs,
                id,
            )[i]).spec_id() matches Some(n) && n < bound),
        forall|i: int, j: int|
            #![trigger remove_first_sub(subs, id)[i].spec_id(), remove_first_sub(subs, id)[j].spec_id()]
            0 <= i < j < remove_first_sub(subs, id).len() ==> remove_first_sub(subs, id)[i].spec_id()
                != remove_first_sub(subs, id)[j].spec_id(),
{
    if id is None {
        // Nothing is removed.
    } else if exists|i: int| 0 <= i < subs.len() && (#[trigger] subs[i]).spec_id() == id {
        let j0 = choose|i: int| 0 <= i < subs.len() && (#[trigger] subs[i]).spec_id() == id;
        lemma_first_sub_match(subs, id, j0);
        let j = choose|j: int|
            0 <= j < subs.len() && (#[trigger] subs[j]).spec_id() == id && (forall|i: int|
                0 <= i < j ==> (#[trigger] subs[i]).spec_id() != id);
        lemma_remove_first_sub_found(subs, id, j);
        let out = subs.remove(j);
        assert forall|k: int| 0 <= k < out.len() implies ((#[trigger] out[k]).spec_id()
            matches Some(n) && n < bound) by {
            if k < j {
                assert(out[k] == subs[k]);
            } else {
                assert(out[k] == subs[k + 1]);
            }
        }
        assert forall|k1: int, k2: int|
            #![trigger out[k1].spec_id(), out[k2].spec_id()]
            0 <= k1 < k2 < out.len() implies out[k1].spec_id() != out[k2].spec_id() by {
            let i1: int = if k1 < j { k1 } else { k1 + 1 };
            let i2: int = if k2 < j { k2 } else { k2 + 1 };
            assert(out[k1] == subs[i1]);
            assert(out[k2] == subs[i2]);
        }
    } else {
        lemma_remove_first_sub_absent(subs, id);
    }
}

/// The direct observer: a register of subscribers, notified in
/// subscription order, with no event queue and no re-entrant emission.
pub struct Observer<C: Update> {
    subscribers: Vec<Subscriber<C>>,
    next_id: u64,
    tag: Ghost<int>,
}

impl<C: Update> Observer<C> {
    /// The subscribed callbacks, in subscription order.
    pub closed spec fn subscribers_spec(&self) -> Seq<Subscriber<C>> {
        self.subscribers@
    }

    /// The registration number the next subscription will receive.
    pub closed spec fn next_id_spec(&self) -> u64 {
        self.next_id
    }

    /// The ghost tag of this observer. Every handle it subscribes is
    /// stamped with it, and unsubscription demands it back: a handle can
    /// only be removed from the observer that issued its registration.
    pub closed spec fn tag_spec(&self) -> int {
        self.tag@
    }

    /// The registration number the next subscription will receive; lets a
    /// caller check the headroom that `subscribe` asks for.
    pub fn next_registration(&self) -> (r: u64)
        ensures
            r == self.next_id_spec(),
    {
        self.next_id
    }

    /// Well-formedness: every entry is stamped with a number below the
    /// next one to be issued, and no two entries share a number.
    pub open spec fn wf(&self) -> bool {
        &&& forall|i: int|
            0 <= i < self.subscribers_spec().len() ==> ((#[trigger] self.subscribers_spec()[i])
                .spec_id() matches Some(n) && n < self.next_id_spec())
        &&& forall|i: int, j: int|
            #![trigger self.subscribers_spec()[i].spec_id(), self.subscribers_spec()[j].spec_id()]
            0 <= i < j < self.subscribers_spec().len() ==> self.subscribers_spec()[i].spec_id()
                != self.subscribers_spec()[j].spec_id()
    }

    /// An observer with no subscribers.
    pub fn new() -> (r: Self)
        ensures
            r.subscribers_spec() == Seq::<Subscriber<C>>::empty(),
            r.next_id_spec() == 0,
            r.wf(),
    {
        let ghost tag: int = arbitrary();
        Observer { subscribers: Vec::new(), next_id: 0, tag: Ghost(tag) }
    }

    /// Subscribes `callback`: appends a fresh registration at the back of
    /// the register and returns the handle that removes it again.
    pub fn subscribe(&mut self, callback: C) -> (new_subscriber: Subscriber<C>)
        requires
            old(self).next_id_spec() < u64::MAX,
        ensures
            new_subscriber.spec_id() == Some(old(self).next_id_spec()),
            new_subscriber.spec_callback() == callback,
            new_subscriber.spec_tag() == old(self).tag_spec(),
            final(self).subscribers_spec() == old(self).subscribers_spec().push(new_subscriber),
            final(self).next_id_spec() == old(self).next_id_spec() + 1,
            final(self).tag_spec() == old(self).tag_spec(),
            old(self).wf() ==> final(self).wf(),
    {
        let mut new_subscriber = Subscriber::new(callback);
        self.add(&mut new_subscriber);
        new_subscriber
    }

    /// Delivers `event` to every subscriber registered for its kind, in
    /// subscription order; subscribers of other kinds are not called.
    pub fn notify(&self, ctx: &mut C::Ctx, event: C::Ev)
        ensures
            *final(ctx) == update_all(
                bucket_of(self.subscribers_spec(), event.kind_spec()),
                *old(ctx),
                event,
            ),
    {
        let ghost ctx0 = *ctx;
        let row = self.get_subscribers(event.kind());
        let mut i: usize = 0;
        proof {
            assert(row@.skip(0) =~= row@);
        }
        while i < row.len()
            invariant
                i <= row@.len(),
                update_all(row@, ctx0, event) == update_all(row@.skip(i as int), *ctx, event),
            decreases row@.len() - i,
        {
            let subscriber = row[i];
            subscriber.call(ctx, &event);
            proof {
                let here = row@.skip(i as int);
                assert(here[0] == row@[i as int]);
                assert(here.drop_first() =~= row@.skip(i as int + 1));
            }
            i = i + 1;
        }
        proof {
            assert(row@.skip(i as int) =~= Seq::<Subscriber<C>>::empty());
        }
    }

    /// Removes the registration named by `subscriber`, which this
    /// observer must have issued, if an entry carries it; a no-op on an
    /// unregistered handle. Removal never touches a second entry.
    pub fn unsubscribe(&mut self, subscriber: Subscriber<C>)
        requires
            subscriber.spec_id() is Some ==> subscriber.spec_tag() == old(self).tag_spec(),
        ensures
            final(self).subscribers_spec() == remove_first_sub(
                old(self).subscribers_spec(),
                subscriber.spec_id(),
            ),
            final(self).next_id_spec() == old(self).next_id_spec(),
            final(self).tag_spec() == old(self).tag_spec(),
            old(self).wf() ==> final(self).wf(),
    {
        let ghost orig = self.subscribers@;
        if subscriber.registration().is_none() {
            // An unregistered handle names no registration; nothing to remove.
            return ;
        }
        let mut j: usize = 0;
        while j < self.subscribers.len()
            invariant
                j <= self.subscribers@.len(),
                self.subscribers@ == orig,
                orig == old(self).subscribers@,
                self.next_id == old(self).next_id,
                self.tag_spec() == old(self).tag_spec(),
                subscriber.spec_id() is Some,
                forall|i: int|
                    0 <= i < j ==> (#[trigger] orig[i]).spec_id() != subscriber.spec_id(),
            decreases self.subscribers@.len() - j,
        {
            let candidate = self.subscribers[j];
            if candidate == subscriber {
                self.subscribers.remove(j);
                proof {
                    lemma_remove_first_sub_found(orig, subscriber.spec_id(), j as int);
                    if old(self).wf() {
                        lemma_remove_first_sub_wf(
                            orig,
                            subscriber.spec_id(),
                            old(self).next_id_spec(),
                        );
                    }
                }
                return ;
            }
            j = j + 1;
        }
        proof {
            lemma_remove_first_sub_absent(orig, subscriber.spec_id());
        }
    }

    /// Appends a fresh registration for `new_subscriber`'s kind.
    fn add(&mut self, new_subscriber: &mut Subscriber<C>)
        requires
            old(self).next_id_spec() < u64::MAX,
        ensures
            final(new_subscriber).spec_id() == Some(old(self).next_id_spec()),
            final(new_subscriber).spec_callback() == old(new_subscriber).spec_callback(),
            final(new_subscriber).spec_tag() == old(self).tag_spec(),
            final(self).subscribers_spec() == old(self).subscribers_spec().push(
                *final(new_subscriber),
            ),
            final(self).next_id_spec() == old(self).next_id_spec() + 1,
            final(self).tag_spec() == old(self).tag_spec(),
            old(self).wf() ==> final(self).wf(),
    {
        new_subscriber.set_registration(self.next_id, Ghost(self.tag@));
        self.subscribers.push(*new_subscriber);
        self.next_id = self.next_id + 1;
        proof {
            if old(self).wf() {
                let ls = self.subscribers_spec();
                let prev = old(self).subscribers_spec();
                assert forall|i: int| 0 <= i < ls.len() implies ((#[trigger] ls[i]).spec_id()
                    matches Some(n) && n < self.next_id_spec()) by {
                    if i < prev.len() {
                        assert(ls[i] == prev[i]);
                    }
                }
                assert forall|i: int, j: int|
                    #![trigger ls[i].spec_id(), ls[j].spec_id()]
                    0 <= i < j < ls.len() implies ls[i].spec_id() != ls[j].spec_id() by {
                    if j < prev.len() {
                        assert(ls[i] == prev[i] && ls[j] == prev[j]);
                    } else {
                        assert(ls[i] == prev[i]);
                        assert(ls[j].spec_id() == Some(old(self).next_id_spec()));
                    }
                }
            }
        }
    }

    /// The subscribers registered for events of kind `event_id`, in
    /// subscription order.
    fn get_subscribers(&self, event_id: u64) -> (row: Vec<Subscriber<C>>)
        ensures
            row@ == bucket_of(self.subscribers_spec(), event_id),
    {
        let mut row: Vec<Subscriber<C>> = Vec::new();
        let mut i: usize = 0;
        proof {
            assert(self.subscribers@.skip(0) =~= self.subscribers@);
            assert(Seq::<Subscriber<C>>::empty() + bucket_of(self.subscribers@, event_id)
                =~= bucket_of(self.subscribers@, event_id));
        }
        while i < self.subscribers.len()
            invariant
                i <= self.subscribers@.len(),
                bucket_of(self.subscribers@, event_id) == row@ + bucket_of(
                    self.subscribers@.skip(i as int),
                    event_id,
                ),
            decreases self.subscribers@.len() - i,
        {
            let ghost row_prev = row@;
            let subscriber = self.subscribers[i];
            if subscriber.event_id() == event_id {
                row.push(subscriber);
            }
            proof {
                let here = self.subscribers@.skip(i as int);
                assert(here[0] == self.subscribers@[i as int]);
                assert(here.drop_first() =~= self.subscribers@.skip(i as int + 1));
                if subscriber.kind_spec() == event_id {
                    assert(row_prev + (seq![subscriber] + bucket_of(here.drop_first(), event_id))
                        =~= row@ + bucket_of(self.subscribers@.skip(i as int + 1), event_id));
                }
            }
            i = i + 1;
        }
        proof {
            assert(self.subscribers@.skip(i as int) =~= Seq::<Subscriber<C>>::empty());
            assert(row@ + Seq::<Subscriber<C>>::empty() =~= row@);
        }
        row
    }
}

} // verus!
