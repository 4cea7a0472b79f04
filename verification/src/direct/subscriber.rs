use vstd::prelude::*;
use crate::event::Event;

verus! {

/// A subscriber body behind a uniform interface: it names the kind of
/// event it accepts and reacts to a delivered event by updating the shared
/// context. One implementing type — typically an enum — stands for every
/// callback an application subscribes.
pub trait Update: Sized + Copy {
    /// The family of events this callback can be asked to handle.
    type Ev: Event;

    /// The shared state the subscribers of one observer read and write.
    type Ctx;

    /// The kind of event this callback accepts, as a mathematical value.
    /// The default leaves it unspecified; an implementation inside
    /// `verus!` overrides it.
    open spec fn kind_spec(&self) -> u64 {
        arbitrary()
    }

    /// The callback body as a mathematical function, from the context and
    /// the delivered event to the updated context. The default leaves the
    /// model unspecified; an implementation inside `verus!` overrides it,
    /// while one left unverified may keep the default, about which nothing
    /// is known.
    open spec fn update_spec(&self, ctx: Self::Ctx, event: Self::Ev) -> Self::Ctx {
        arbitrary()
    }

    /// The kind of event this callback accepts.
    fn kind(&self) -> (k: u64)
        ensures
            k == self.kind_spec(),
    ;

    /// Reacts to one delivered event.
    fn update(&self, ctx: &mut Self::Ctx, event: &Self::Ev)
        ensures
            *final(ctx) == self.update_spec(*old(ctx), *event),
    ;
}

/// A registered callback for one event kind, with its lifecycle token.
///
/// As with the nested bus, identity is the registration number the
/// observer issued, never the callback value: two subscriptions of equal
/// callbacks are distinct registrations, and any copy of one handle names
/// the same registration. A ghost tag records which observer issued the
/// registration, so numbers of different observers can never be mixed up.
#[derive(Clone, Copy)]
pub struct Subscriber<C: Update> {
    id: Option<u64>,
    callback: C,
    tag: Ghost<int>,
}

impl<C: Update> Subscriber<C> {
    /// The registration identity of this handle, if it is subscribed.
    pub closed spec fn spec_id(&self) -> Option<u64> {
        self.id
    }

    /// The wrapped callback.
    pub closed spec fn spec_callback(&self) -> C {
        self.callback
    }

    /// The ghost tag of the observer that issued this handle's
    /// registration; meaningful only while the handle is subscribed.
    pub closed spec fn spec_tag(&self) -> int {
        self.tag@
    }

    /// The kind of event this subscriber accepts.
    pub open spec fn kind_spec(&self) -> u64 {
        self.spec_callback().kind_spec()
    }

    /// A fresh, unregistered subscriber wrapping `callback`; it joins an
    /// observer only through `Observer::subscribe`.
    pub fn new(callback: C) -> (r: Self)
        ensures
            r.spec_id() is None,
            r.spec_callback() == callback,
    {
        let ghost tag: int = arbitrary();
        Subscriber { id: None, callback, tag: Ghost(tag) }
    }

    /// The registration number of this handle, if it is subscribed. The
    /// register itself is authoritative: a copy's number may outlive the
    /// registration it names.
    pub fn registration(&self) -> (r: Option<u64>)
        ensures
            r == self.spec_id(),
    {
        self.id
    }

    /// Stamps the registration number the observer issued for this
    /// handle, and the tag of the observer that issued it.
    pub(crate) fn set_registration(&mut self, id: u64, origin: Ghost<int>)
        ensures
            final(self).spec_id() == Some(id),
            final(self).spec_callback() == old(self).spec_callback(),
            final(self).spec_tag() == origin@,
    {
        self.id = Some(id);
        self.tag = origin;
    }

    /// The kind identifier under which this subscriber is registered.
    pub fn event_id(&self) -> (k: u64)
        ensures
            k == self.kind_spec(),
    {
        self.callback.kind()
    }

    /// Invokes the wrapped callback with one event.
    pub fn call(&self, ctx: &mut C::Ctx, event: &C::Ev)
        ensures
            *final(ctx) == self.spec_callback().update_spec(*old(ctx), *event),
    {
        self.callback.update(ctx, event);
    }
}

impl<C: Update> PartialEq for Subscriber<C> {
    /// Handle identity: two handles are equal exactly when they name the
    /// same registration, whatever their callbacks. A handle holding no
    /// registration names nothing and equals nothing, not even itself.
    fn eq(&self, other: &Self) -> bool {
        match (self.id, other.id) {
            (Some(a), Some(b)) => a == b,
            _ => false,
        }
    }
}

impl<C: Update> vstd::std_specs::cmp::PartialEqSpecImpl for Subscriber<C> {
    open spec fn obeys_eq_spec() -> bool {
        true
    }

    open spec fn eq_spec(&self, other: &Self) -> bool {
        self.spec_id() is Some && self.spec_id() == other.spec_id()
    }
}

} // verus!
