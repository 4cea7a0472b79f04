//! A single-slot reactive value: every `set` shows the incoming value to
//! the subscribers, in subscription order, before storing it.

use vstd::prelude::*;

verus! {

/// A watcher body: reacts to each value written into the slot by updating
/// the shared context.
pub trait Watch: Sized + Copy {
    /// The values the slot holds.
    type Val;

    /// The shared state the watchers of one slot read and write.
    type Ctx;

    /// The watcher body as a mathematical function, from the context and
    /// the incoming value to the updated context. The default leaves the
    /// model unspecified; an implementation inside `verus!` overrides it,
    /// while one left unverified may keep the default, about which nothing
    /// is known.
    open spec fn watch_spec(&self, ctx: Self::Ctx, val: Self::Val) -> Self::Ctx {
        arbitrary()
    }

    /// Reacts to one incoming value.
    fn watch(&self, ctx: &mut Self::Ctx, val: &Self::Val)
        ensures
            *final(ctx) == self.watch_spec(*old(ctx), *val),
    ;
}

/// A registered watcher with its lifecycle token; identity is the
/// registration number, never the callback value. A ghost tag records
/// which slot issued the registration, so numbers of different slots can
/// never be mixed up.
#[derive(Clone, Copy)]
pub struct Subscriber<C: Watch> {
    id: Option<u64>,
    callback: C,
    tag: Ghost<int>,
}

impl<C: Watch> Subscriber<C> {
    /// The registration identity of this handle, if it is subscribed.
    pub closed spec fn spec_id(&self) -> Option<u64> {
        self.id
    }

    /// The wrapped callback.
    pub closed spec fn spec_callback(&self) -> C {
        self.callback
    }

    /// The ghost tag of the slot that issued this handle's registration;
    /// meaningful only while the handle is subscribed.
    pub closed spec fn spec_tag(&self) -> int {
        self.tag@
    }

    /// A fresh, unregistered watcher wrapping `callback`.
    pub fn new(callback: C) -> (r: Self)
        ensures
            r.spec_id() is None,
            r.spec_callback() == callback,
    {
        let ghost tag: int = arbitrary();
        Subscriber { id: None, callback, tag: Ghost(tag) }
    }

    /// The registration number of this handle, if it is subscribed. The
    /// register itself is authoritative: a copy's number may outlive the
    /// registration it names.
    pub fn registration(&self) -> (r: Option<u64>)
        ensures
            r == self.spec_id(),
    {
        self.id
    }

    /// Stamps the registration number the slot issued for this handle,
    /// and the tag of the slot that issued it.
    pub(crate) fn set_registration(&mut self, id: u64, origin: Ghost<int>)
        ensures
            final(self).spec_id() == Some(id),
            final(self).spec_callback() == old(self).spec_callback(),
            final(self).spec_tag() == origin@,
    {
        self.id = Some(id);
        self.tag = origin;
    }

    /// Invokes the wrapped callback with one incoming value.
    pub fn call(&self, ctx: &mut C::Ctx, val: &C::Val)
        ensures
            *final(ctx) == self.spec_callback().watch_spec(*old(ctx), *val),
    {
        self.callback.watch(ctx, val);
    }
}

impl<C: Watch> PartialEq for Subscriber<C> {
    /// Handle identity: two handles are equal exactly when they name the
    /// same registration, whatever their callbacks. A handle holding no
    /// registration names nothing and equals nothing, not even itself.
    fn eq(&self, other: &Self) -> bool {
        match (self.id, other.id) {
            (Some(a), Some(b)) => a == b,
            _ => false,
        }
    }
}

impl<C: Watch> vstd::std_specs::cmp::PartialEqSpecImpl for Subscriber<C> {
    open spec fn obeys_eq_spec() -> bool {
        true
    }

    open spec fn eq_spec(&self, other: &Self) -> bool {
        self.spec_id() is Some && self.spec_id() == other.spec_id()
    }
}

/// The watchers that survive removing registration `id`: all but the
/// entries that carry it, in their original order.
pub open spec fn keep_others<C: Watch>(
    subs: Seq<Subscriber<C>>,
    id: Option<u64>,
) -> Seq<Subscriber<C>>
    decreases subs.len(),
{
    if id is None || subs.len() == 0 {
        subs
    } else if subs[0].spec_id() == id {
        keep_others(subs.drop_first(), id)
    } else {
        seq![subs[0]] + keep_others(subs.drop_first(), id)
    }
}

/// Showing one value to a row of watchers, front to back: each callback
/// sees the context its predecessors left.
pub open spec fn watch_all<C: Watch>(row: Seq<Subscriber<C>>, ctx: C::Ctx, val: C::Val) -> C::Ctx
    decreases row.len(),
{
    if row.len() == 0 {
        ctx
    } else {
        watch_all(row.drop_first(), row[0].spec_callback().watch_spec(ctx, val), val)
    }
}

/// The reactive slot: one value and the watchers of its changes.
pub struct ValueObserver<C: Watch> {
    val: C::Val,
    subscribers: Vec<Subscriber<C>>,
    next_id: u64,
    tag: Ghost<int>,
}

impl<C: Watch> ValueObserver<C> {
    /// The value the slot holds.
    pub closed spec fn value_spec(&self) -> C::Val {
        self.val
    }

    /// The subscribed watchers, in subscription order.
    pub closed spec fn subscribers_spec(&self) -> Seq<Subscriber<C>> {
        self.subscribers@
    }

    /// The registration number the next subscription will receive.
    pub closed spec fn next_id_spec(&self) -> u64 {
        self.next_id
    }

    /// The ghost tag of this slot. Every handle it subscribes is stamped
    /// with it, and unsubscription demands it back: a handle can only be
    /// removed from the slot that issued its registration.
    pub closed spec fn tag_spec(&self) -> int {
        self.tag@
    }

    /// The registration number the next subscription will receive; lets a
    /// caller check the headroom that `subscribe` asks for.
    pub fn next_registration(&self) -> (r: u64)
        ensures
            r == self.next_id_spec(),
    {
        self.next_id
    }

    /// A slot holding `val`, with no watchers yet.
    pub fn new(val: C::Val) -> (r: Self)
        ensures
            r.value_spec() == val,
            r.subscribers_spec() == Seq::<Subscriber<C>>::empty(),
            r.next_id_spec() == 0,
    {
        let ghost tag: int = arbitrary();
        ValueObserver { val, subscribers: Vec::new(), next_id: 0, tag: Ghost(tag) }
    }

    /// Subscribes `callback` to every future `set`; returns the handle
    /// that removes the subscription again.
    pub fn subscribe(&mut self, callback: C) -> (new_subscriber: Subscriber<C>)
        requires
            old(self).next_id_spec() < u64::MAX,
        ensures
            new_subscriber.spec_id() == Some(old(self).next_id_spec()),
            new_subscriber.spec_callback() == callback,
            new_subscriber.spec_tag() == old(self).tag_spec(),
            final(self).subscribers_spec() == old(self).subscribers_spec().push(new_subscriber),
            final(self).next_id_spec() == old(self).next_id_spec() + 1,
            final(self).value_spec() == old(self).value_spec(),
            final(self).tag_spec() == old(self).tag_spec(),
    {
        let mut new_subscriber = Subscriber::new(callback);
        new_subscriber.set_registration(self.next_id, Ghost(self.tag@));
        self.subscribers.push(new_subscriber);
        self.next_id = self.next_id + 1;
        new_subscriber
    }

    /// Removes every entry naming `subscriber`'s registration — at most
    /// one, since each subscription is stamped with a fresh number — which
    /// this slot must have issued; a no-op on an unregistered handle.
    pub fn unsubscribe(&mut self, subscriber: Subscriber<C>)
        requires
            subscriber.spec_id() is Some ==> subscriber.spec_tag() == old(self).tag_spec(),
        ensures
            final(self).subscribers_spec() == keep_others(
                old(self).subscribers_spec(),
                subscriber.spec_id(),
            ),
            final(self).next_id_spec() == old(self).next_id_spec(),
            final(self).value_spec() == old(self).value_spec(),
            final(self).tag_spec() == old(self).tag_spec(),
    {
        let ghost id = subscriber.spec_id();
        if subscriber.registration().is_none() {
            // An unregistered handle names no registration; nothing to remove.
            return ;
        }
        let ghost orig = self.subscribers@;
        let mut kept: Vec<Subscriber<C>> = Vec::new();
        let mut i: usize = 0;
        proof {
            assert(orig.skip(0) =~= orig);
            assert(Seq::<Subscriber<C>>::empty() + keep_others(orig, id) =~= keep_others(
                orig,
                id,
            ));
        }
        while i < self.subscribers.len()
            invariant
                i <= self.subscribers@.len(),
                self.subscribers@ == orig,
                orig == old(self).subscribers@,
                self.next_id == old(self).next_id,
                self.val == old(self).val,
                self.tag_spec() == old(self).tag_spec(),
                id == subscriber.spec_id(),
                keep_others(orig, id) == kept@ + keep_others(orig.skip(i as int), id),
            decreases self.subscribers@.len() - i,
        {
            let ghost kept_prev = kept@;
            let candidate = self.subscribers[i];
            if !(candidate == subscriber) {
                kept.push(candidate);
            }
            proof {
                let here = orig.skip(i as int);
                assert(here[0] == orig[i as int]);
                assert(here.drop_first() =~= orig.skip(i as int + 1));
                if orig[i as int].spec_id() != id {
                    assert(kept_prev + (seq![candidate] + keep_others(here.drop_first(), id))
                        =~= kept@ + keep_others(orig.skip(i as int + 1), id));
                }
            }
            i = i + 1;
        }
        proof {
            assert(orig.skip(i as int) =~= Seq::<Subscriber<C>>::empty());
            assert(kept@ + Seq::<Subscriber<C>>::empty() =~= kept@);
        }
        self.subscribers = kept;
    }

    /// Stores a new value, showing it first to every watcher in
    /// subscription order.
    pub fn set(&mut self, ctx: &mut C::Ctx, new_value: C::Val)
        ensures
            final(self).value_spec() == new_value,
            final(self).subscribers_spec() == old(self).subscribers_spec(),
            final(self).next_id_spec() == old(self).next_id_spec(),
            final(self).tag_spec() == old(self).tag_spec(),
            *final(ctx) == watch_all(old(self).subscribers_spec(), *old(ctx), new_value),
    {
        let ghost ctx0 = *ctx;
        let mut i: usize = 0;
        proof {
            assert(self.subscribers@.skip(0) =~= self.subscribers@);
        }
        while i < self.subscribers.len()
            invariant
                i <= self.subscribers@.len(),
                self.subscribers@ == old(self).subscribers@,
                self.next_id == old(self).next_id,
                self.val == old(self).val,
                self.tag_spec() == old(self).tag_spec(),
                watch_all(self.subscribers@, ctx0, new_value) == watch_all(
                    self.subscribers@.skip(i as int),
                    *ctx,
                    new_value,
                ),
            decreases self.subscribers@.len() - i,
        {
            let subscriber = self.subscribers[i];
            subscriber.call(ctx, &new_value);
            proof {
                let here = self.subscribers@.skip(i as int);
                assert(here[0] == self.subscribers@[i as int]);
                assert(here.drop_first() =~= self.subscribers@.skip(i as int + 1));
            }
            i = i + 1;
        }
        proof {
            assert(self.subscribers@.skip(i as int) =~= Seq::<Subscriber<C>>::empty());
        }
        self.val = new_value;
    }

    /// The value the slot holds.
    pub fn get(&self) -> (r: &C::Val)
        ensures
            *r == self.value_spec(),
    {
        &self.val
    }
}

/// A minimal watcher, verified end to end: it keeps the context equal to
/// the last value shown to it.
#[derive(Clone, Copy)]
pub struct Gauge;

impl Watch for Gauge {
    type Val = i64;

    type Ctx = i64;

    open spec fn watch_spec(&self, ctx: i64, val: i64) -> i64 {
        val
    }

    fn watch(&self, ctx: &mut i64, val: &i64) {
        *ctx = *val;
    }
}

} // verus!
