//! A minimal instantiation of the bus, verified end to end: a listener
//! that counts how many events of its kind were delivered to it.

use vstd::prelude::*;
use crate::dispatch::callback::Callback;
use crate::dispatch::event_pool::EventPool;
use crate::event::Signal;

verus! {

/// A callback that counts its deliveries: the context is the count, and
/// it saturates rather than overflow. It emits nothing, so a wave of
/// counters always drains.
#[derive(Clone, Copy)]
pub struct Counter {
    pub accepts: u64,
}

impl Callback for Counter {
    type Ev = Signal;

    type Ctx = u64;

    open spec fn kind_spec(&self) -> u64 {
        self.accepts
    }

    open spec fn on_spec(&self, ctx: u64, event: Signal) -> (u64, Seq<Signal>) {
        (if ctx < u64::MAX {
            (ctx + 1) as u64
        } else {
            ctx
        }, Seq::empty())
    }

    fn kind(&self) -> u64 {
        self.accepts
    }

    fn on_event(&self, ctx: &mut u64, event: &Signal, event_pool: &mut EventPool<Signal>) {
        if *ctx < u64::MAX {
            *ctx = *ctx + 1;
        }
        proof {
            assert(old(event_pool)@ + Seq::<Signal>::empty() =~= old(event_pool)@);
        }
    }
}

} // verus!
