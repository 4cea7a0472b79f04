//! The direct, non-nested observer: subscribe, notify, unsubscribe.
//!
//! No queue and no re-entrant emission: `notify` delivers one event to
//! every subscriber registered for its kind, in subscription order, and
//! returns. Subscribers share the identity and unsubscription contract of
//! the nested bus: a handle names a registration, never a callback value.

pub mod observer;
pub mod subscriber;
pub mod tally;
