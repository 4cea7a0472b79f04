//! Observer patterns with verified dispatch semantics.
//!
//! The heart of the crate is [`dispatch`]: a typed, in-process event bus
//! supporting nested (re-entrant) event emission with a breadth-first drain
//! loop. A listener invoked while an event is being processed may emit
//! further events; those are queued and handled only after every listener of
//! the current wave has finished.
//!
//! The bus's guarantees — registration-order delivery, breadth-first
//! nesting, removal of exactly one registration, idempotent deactivation,
//! and isolation between event kinds — are proved in [`dispatch::laws`]
//! over the model in [`dispatch::model`], which the contract of `send`
//! ties to the running code.
//!
//! Around the bus stand the simpler variants: [`direct`], a non-nested
//! subscribe/notify observer; [`value_observer`], a single-slot reactive
//! value; and [`toggle`], a small state machine.

pub mod direct;
pub mod dispatch;
pub mod event;
pub mod toggle;
pub mod value_observer;
