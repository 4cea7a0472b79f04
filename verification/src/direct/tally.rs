//! A minimal instantiation of the direct observer, verified end to end: a
//! subscriber that counts how many events of its kind were delivered to
//! it.

use vstd::prelude::*;
use crate::direct::subscriber::Update;
use crate::event::Signal;

verus! {

/// A callback that counts its deliveries: the context is the count, and
/// it saturates rather than overflow.
#[derive(Clone, Copy)]
pub struct Tally {
    pub accepts: u64,
}

impl Update for Tally {
    type Ev = Signal;

    type Ctx = u64;

    open spec fn kind_spec(&self) -> u64 {
        self.accepts
    }

    open spec fn update_spec(&self, ctx: u64, event: Signal) -> u64 {
        if ctx < u64::MAX {
            (ctx + 1) as u64
        } else {
            ctx
        }
    }

    fn kind(&self) -> u64 {
        self.accepts
    }

    fn update(&self, ctx: &mut u64, event: &Signal) {
        if *ctx < u64::MAX {
            *ctx = *ctx + 1;
        }
    }
}

} // verus!
