//! The nested event bus: a dispatcher that drains events breadth-first.
//!
//! [`observer::Observer`] owns an [`observer_map::ObserverMap`] (the
//! registry). `send` seeds an [`event_pool::EventPool`] with one event and
//! repeatedly pops the front event, invoking every listener registered for
//! that event's kind in registration order. A listener receives the pool as
//! a session capability, so events it emits are appended to the same queue
//! and handled only after the current wave completes.

pub mod callback;
pub mod counter;
pub mod event_pool;
pub mod laws;
pub mod model;
pub mod observer;
pub mod observer_map;
pub mod vec_listeners;
