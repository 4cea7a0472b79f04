use vstd::prelude::*;
use crate::dispatch::event_pool::EventPool;
use crate::event::Event;

verus! {

/// A listener body behind a uniform interface.
///
/// The registry must hold listeners for many event kinds in one structure,
/// so every callback is written against this one capability interface: it
/// names the kind of event it accepts and handles a delivered event of that
/// kind. A single implementing type — typically an enum with one variant per
/// listener the application needs — stands for the whole family of callback
/// bodies, and the dispatcher treats them uniformly.
///
/// Listener state is deliberately kept out of the callback value: a callback
/// reads and writes the shared context `Ctx` that the caller of `send`
/// passes through the whole wave. The callback value itself is immutable
/// and freely copied between the registry and the handles that refer to it.
pub trait Callback: Sized + Copy {
    /// The family of events this callback can be asked to handle.
    type Ev: Event;

    /// The shared state that the listeners of one bus read and write.
    type Ctx;

    /// The kind of event this callback accepts, as a mathematical value.
    /// The default leaves it unspecified; an implementation inside
    /// `verus!` overrides it.
    open spec fn kind_spec(&self) -> u64 {
        arbitrary()
    }

    /// The callback body as a mathematical function: from the context and
    /// the delivered event to the updated context and the follow-up events
    /// emitted into the session, in emission order. The default leaves the
    /// model unspecified; an implementation inside `verus!` overrides it,
    /// while one left unverified may keep the default, about which nothing
    /// is known.
    open spec fn on_spec(&self, ctx: Self::Ctx, event: Self::Ev) -> (Self::Ctx, Seq<Self::Ev>) {
        arbitrary()
    }

    /// The kind of event this callback accepts; the dispatcher only ever
    /// delivers events of exactly this kind to it.
    fn kind(&self) -> (k: u64)
        ensures
            k == self.kind_spec(),
    ;

    /// Handles one delivered event: updates the context and appends the
    /// events it emits to the back of the session pool, touching nothing
    /// already queued.
    fn on_event(&self, ctx: &mut Self::Ctx, event: &Self::Ev, event_pool: &mut EventPool<Self::Ev>)
        ensures
            *final(ctx) == self.on_spec(*old(ctx), *event).0,
            final(event_pool)@ == old(event_pool)@ + self.on_spec(*old(ctx), *event).1,
    ;
}

} // verus!
