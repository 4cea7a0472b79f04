use vstd::prelude::*;
use crate::dispatch::callback::Callback;
use crate::dispatch::event_pool::EventPool;
use crate::dispatch::model::{remove_first_id, run_steps, wave_start};
use crate::dispatch::observer_map::{ObserverMap, WAVE_LIMIT};

verus! {

/// A registered callback for one event kind, together with its lifecycle
/// token.
///
/// A listener's identity is its registration number, issued by the registry
/// when the listener is activated — never the callback value: two listeners
/// wrapping equal callbacks are distinct registrations, while any copy of
/// one handle shares its registration and can deactivate it. `==` between
/// handles compares this identity alone. A ghost tag records which registry
/// issued the registration: deactivation demands the registry that matches
/// it, so a handle is active in at most one registry at a time, and
/// registration numbers of different registries can never be mixed up.
#[derive(Clone, Copy)]
pub struct Listener<L: Callback> {
    id: Option<u64>,
    callback: L,
    tag: Ghost<int>,
}

impl<L: Callback> Listener<L> {
    /// The registration identity of this handle: `Some` once it has been
    /// activated, `None` before activation and after deactivation.
    pub closed spec fn spec_id(&self) -> Option<u64> {
        self.id
    }

    /// The wrapped callback.
    pub closed spec fn spec_callback(&self) -> L {
        self.callback
    }

    /// The ghost tag of the registry that issued this handle's
    /// registration; meaningful only while the handle is active.
    pub closed spec fn spec_tag(&self) -> int {
        self.tag@
    }

    /// The kind of event this listener accepts.
    pub open spec fn kind_spec(&self) -> u64 {
        self.spec_callback().kind_spec()
    }

    /// A fresh, inactive listener wrapping `callback`. It joins a registry
    /// only through [`Listener::activate`] or [`Observer::listen`].
    pub fn new(callback: L) -> (r: Self)
        ensures
            r.spec_id() is None,
            r.spec_callback() == callback,
    {
        let ghost tag: int = arbitrary();
        Listener { id: None, callback, tag: Ghost(tag) }
    }

    /// Invokes the wrapped callback with an event and the session pool of
    /// the running wave.
    pub fn notify(&self, ctx: &mut L::Ctx, event: &L::Ev, event_pool: &mut EventPool<L::Ev>)
        ensures
            *final(ctx) == self.spec_callback().on_spec(*old(ctx), *event).0,
            final(event_pool)@ == old(event_pool)@ + self.spec_callback().on_spec(
                *old(ctx),
                *event,
            ).1,
    {
        self.callback.on_event(ctx, event, event_pool);
    }

    /// The registration number of this handle, if it is active. The
    /// registry itself is authoritative: a copy's number may outlive the
    /// registration it names.
    pub fn registration(&self) -> (r: Option<u64>)
        ensures
            r == self.spec_id(),
    {
        self.id
    }

    /// Stamps the registration number the registry issued for this
    /// handle, and the tag of the registry that issued it.
    pub(crate) fn set_registration(&mut self, id: u64, origin: Ghost<int>)
        ensures
            final(self).spec_id() == Some(id),
            final(self).spec_callback() == old(self).spec_callback(),
            final(self).spec_tag() == origin@,
    {
        self.id = Some(id);
        self.tag = origin;
    }

    /// The kind identifier under which this listener is registered.
    pub fn event_type(&self) -> (k: u64)
        ensures
            k == self.kind_spec(),
    {
        self.callback.kind()
    }

    /// Registers this listener in `observer_parent`'s registry, at the back
    /// of the bucket for its kind. An active handle can only be handed the
    /// registry that issued its registration, which is removed first:
    /// re-activation is a move, not a duplicate add, and a handle never
    /// leaves a registration behind in another registry.
    pub fn activate(&mut self, observer_parent: &mut Observer<L>)
        requires
            old(observer_parent).fresh_id_spec() < u64::MAX,
            old(self).spec_id() is Some ==> old(self).spec_tag() == old(
                observer_parent,
            ).tag_spec(),
        ensures
            final(self).spec_id() == Some(old(observer_parent).fresh_id_spec()),
            final(self).spec_callback() == old(self).spec_callback(),
            final(self).spec_tag() == old(observer_parent).tag_spec(),
            final(observer_parent).listeners_spec() == remove_first_id(
                old(observer_parent).listeners_spec(),
                old(self).spec_id(),
            ).push(*final(self)),
            final(observer_parent).fresh_id_spec() == old(observer_parent).fresh_id_spec() + 1,
            final(observer_parent).tag_spec() == old(observer_parent).tag_spec(),
            old(observer_parent).observer_map_spec().wf()
                ==> final(observer_parent).observer_map_spec().wf(),
    {
        self.deactivate(observer_parent);
        observer_parent.observer_map.add(self);
    }

    /// Removes this listener's registration from the registry that issued
    /// it; a no-op on an inactive handle. Idempotent, and safe to call on
    /// any copy of the handle.
    pub fn deactivate(&mut self, observer_parent: &mut Observer<L>)
        requires
            old(self).spec_id() is Some ==> old(self).spec_tag() == old(
                observer_parent,
            ).tag_spec(),
        ensures
            final(self).spec_id() is None,
            final(self).spec_callback() == old(self).spec_callback(),
            final(observer_parent).listeners_spec() == remove_first_id(
                old(observer_parent).listeners_spec(),
                old(self).spec_id(),
            ),
            final(observer_parent).fresh_id_spec() == old(observer_parent).fresh_id_spec(),
            final(observer_parent).tag_spec() == old(observer_parent).tag_spec(),
            old(observer_parent).observer_map_spec().wf()
                ==> final(observer_parent).observer_map_spec().wf(),
    {
        observer_parent.observer_map.remove(self);
        self.id = None;
    }
}

impl<L: Callback> PartialEq for Listener<L> {
    /// Handle identity: two handles are equal exactly when they name the
    /// same registration, whatever their callbacks. A handle holding no
    /// registration names nothing and equals nothing, not even itself.
    fn eq(&self, other: &Self) -> bool {
        match (self.id, other.id) {
            (Some(a), Some(b)) => a == b,
            _ => false,
        }
    }
}

impl<L: Callback> vstd::std_specs::cmp::PartialEqSpecImpl for Listener<L> {
    open spec fn obeys_eq_spec() -> bool {
        true
    }

    open spec fn eq_spec(&self, other: &Self) -> bool {
        self.spec_id() is Some && self.spec_id() == other.spec_id()
    }
}

/// The dispatcher: owns one registry and drives the breadth-first drain
/// loop for every externally submitted event.
pub struct Observer<L: Callback> {
    observer_map: ObserverMap<L>,
}

impl<L: Callback> Observer<L> {
    /// The registry this dispatcher owns.
    pub closed spec fn observer_map_spec(&self) -> ObserverMap<L> {
        self.observer_map
    }

    /// The registered listeners, in registration order.
    pub open spec fn listeners_spec(&self) -> Seq<Listener<L>> {
        self.observer_map_spec().listeners_spec()
    }

    /// The registration number the next activation will receive.
    pub open spec fn fresh_id_spec(&self) -> u64 {
        self.observer_map_spec().next_id_spec()
    }

    /// The ghost tag of this dispatcher's registry.
    pub open spec fn tag_spec(&self) -> int {
        self.observer_map_spec().tag_spec()
    }

    /// The registration number the next activation will receive; lets a
    /// caller check the headroom that `listen` asks for.
    pub fn next_registration(&self) -> (r: u64)
        ensures
            r == self.fresh_id_spec(),
    {
        self.observer_map.next_registration()
    }

    /// A dispatcher with a fresh, empty registry.
    pub fn new() -> (r: Self)
        ensures
            r.listeners_spec() == Seq::<Listener<L>>::empty(),
            r.fresh_id_spec() == 0,
            r.observer_map_spec().wf(),
    {
        Observer { observer_map: ObserverMap::new() }
    }

    /// Constructs a listener for `callback` and activates it: the new
    /// registration goes to the back of the bucket for its kind. The
    /// returned handle is the token for removing it again.
    pub fn listen(&mut self, callback: L) -> (new_listener: Listener<L>)
        requires
            old(self).fresh_id_spec() < u64::MAX,
        ensures
            new_listener.spec_id() == Some(old(self).fresh_id_spec()),
            new_listener.spec_callback() == callback,
            new_listener.spec_tag() == old(self).tag_spec(),
            final(self).listeners_spec() == old(self).listeners_spec().push(new_listener),
            final(self).fresh_id_spec() == old(self).fresh_id_spec() + 1,
            final(self).tag_spec() == old(self).tag_spec(),
            old(self).observer_map_spec().wf() ==> final(self).observer_map_spec().wf(),
    {
        let mut new_listener = Listener::new(callback);
        new_listener.activate(self);
        new_listener
    }

    /// Deactivates `listener`: removes its registration, if any, which
    /// this dispatcher's registry must have issued. Idempotent.
    pub fn remove_listener(&mut self, listener: &mut Listener<L>)
        requires
            old(listener).spec_id() is Some ==> old(listener).spec_tag() == old(
                self,
            ).tag_spec(),
        ensures
            final(listener).spec_id() is None,
            final(listener).spec_callback() == old(listener).spec_callback(),
            final(self).listeners_spec() == remove_first_id(
                old(self).listeners_spec(),
                old(listener).spec_id(),
            ),
            final(self).fresh_id_spec() == old(self).fresh_id_spec(),
            final(self).tag_spec() == old(self).tag_spec(),
            old(self).observer_map_spec().wf() ==> final(self).observer_map_spec().wf(),
    {
        listener.deactivate(self);
    }

    /// Submits an event and synchronously runs the whole breadth-first
    /// wave: the event's listeners run in registration order, and events
    /// they emit are processed only after the current wave segment
    /// finishes. Returns whether the wave drained completely; `false` only
    /// if re-entrant emission kept the queue non-empty for
    /// [`WAVE_LIMIT`] dispatch steps.
    pub fn send(&self, ctx: &mut L::Ctx, event: L::Ev) -> (complete: bool)
        ensures
            ({
                let w = run_steps(
                    self.listeners_spec(),
                    wave_start(event, *old(ctx)),
                    WAVE_LIMIT as nat,
                );
                *final(ctx) == w.ctx && complete == (w.queue.len() == 0)
            }),
    {
        self.observer_map.send(ctx, event)
    }
}

} // verus!
