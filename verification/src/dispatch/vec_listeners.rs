use vstd::prelude::*;
use crate::dispatch::callback::Callback;
use crate::dispatch::event_pool::EventPool;
use crate::dispatch::model::{remove_first_id, run_row};
use crate::dispatch::model::{lemma_remove_first_id_absent, lemma_remove_first_id_found};
use crate::dispatch::observer::Listener;

verus! {

/// Row operations on a vector of listeners: delivering one event to every
/// entry in order, and removing an entry by handle identity.
pub trait VecListeners<L: Callback>: View<V = Seq<Listener<L>>> + Sized {
    /// Delivers one event to every listener of the row, front to back:
    /// each listener sees the context its predecessors left, and whatever
    /// the row emits joins the back of the session pool, in call order.
    fn notify_all(&self, ctx: &mut L::Ctx, event: &L::Ev, event_pool: &mut EventPool<L::Ev>)
        ensures
            ({
                let eff = run_row(self@, *old(ctx), *event);
                *final(ctx) == eff.ctx && final(event_pool)@ == old(event_pool)@ + eff.emitted
            }),
    ;

    /// Removes the first entry identity-equal to `element`; a no-op when
    /// no entry matches or `element` holds no registration.
    fn remove_first(&mut self, element: &Listener<L>)
        ensures
            final(self)@ == remove_first_id(old(self)@, element.spec_id()),
    ;

    /// A row holding exactly one listener.
    fn from_listener(listener: Listener<L>) -> (r: Self)
        ensures
            r@ == seq![listener],
    ;
}

impl<L: Callback> VecListeners<L> for Vec<Listener<L>> {
    fn notify_all(&self, ctx: &mut L::Ctx, event: &L::Ev, event_pool: &mut EventPool<L::Ev>) {
        let ghost ctx0 = *ctx;
        let ghost pool0 = event_pool@;
        let mut i: usize = 0;
        proof {
            assert(self@.skip(0) =~= self@);
            assert(event_pool@.skip(pool0.len() as int) =~= Seq::<L::Ev>::empty());
            let full = run_row(self@, ctx0, *event);
            assert(Seq::<L::Ev>::empty() + full.emitted =~= full.emitted);
        }
        while i < self.len()
            invariant
                i <= self@.len(),
                pool0.is_prefix_of(event_pool@),
                ({
                    let full = run_row(self@, ctx0, *event);
                    let rest = run_row(self@.skip(i as int), *ctx, *event);
                    full.ctx == rest.ctx && full.emitted == event_pool@.skip(pool0.len() as int)
                        + rest.emitted
                }),
            decreases self@.len() - i,
        {
            let ghost ctx_before = *ctx;
            let ghost pool_before = event_pool@;
            let listener = self[i];
            listener.notify(ctx, event, event_pool);
            proof {
                let row_here = self@.skip(i as int);
                assert(row_here[0] == self@[i as int]);
                assert(row_here.drop_first() =~= self@.skip(i as int + 1));
                let head = self@[i as int].spec_callback().on_spec(ctx_before, *event);
                assert(event_pool@.skip(pool0.len() as int) =~= pool_before.skip(
                    pool0.len() as int,
                ) + head.1);
                let rest_next = run_row(self@.skip(i as int + 1), *ctx, *event);
                assert(pool_before.skip(pool0.len() as int) + (head.1 + rest_next.emitted)
                    =~= event_pool@.skip(pool0.len() as int) + rest_next.emitted);
            }
            i = i + 1;
        }
        proof {
            assert(self@.skip(i as int) =~= Seq::<Listener<L>>::empty());
            let full = run_row(self@, ctx0, *event);
            assert(full.emitted =~= event_pool@.skip(pool0.len() as int));
            assert(event_pool@ =~= pool0 + event_pool@.skip(pool0.len() as int));
        }
    }

    fn remove_first(&mut self, element: &Listener<L>) {
        let reg = element.registration();
        if reg.is_none() {
            // An inactive handle names no registration; nothing to remove.
            return ;
        }
        proof {
            assert(element.spec_id() is Some);
        }
        let ghost orig = self@;
        let mut j: usize = 0;
        while j < self.len()
            invariant
                j <= self@.len(),
                self@ == orig,
                orig == old(self)@,
                element.spec_id() is Some,
                forall|i: int| 0 <= i < j ==> (#[trigger] orig[i]).spec_id() != element.spec_id(),
            decreases self@.len() - j,
        {
            let candidate = self[j];
            if candidate == *element {
                self.remove(j);
                proof {
                    lemma_remove_first_id_found(orig, element.spec_id(), j as int);
                }
                return ;
            }
            j = j + 1;
        }
        proof {
            lemma_remove_first_id_absent(orig, element.spec_id());
        }
    }

    fn from_listener(listener: Listener<L>) -> (r: Self) {
        let mut row = Vec::new();
        row.push(listener);
        row
    }
}

} // verus!
