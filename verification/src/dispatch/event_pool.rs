use vstd::prelude::*;

verus! {

/// A FIFO queue of pending events.
///
/// `send` appends at the back, `pop` removes from the front; the queue never
/// reorders. During a dispatch wave the pool doubles as the session
/// capability handed to listeners: an event sent from inside a listener body
/// joins the back of the same queue.
pub struct EventPool<E> {
    events: Vec<E>,
}

impl<E> View for EventPool<E> {
    type V = Seq<E>;

    /// The pending events, front first.
    closed spec fn view(&self) -> Seq<E> {
        self.events@
    }
}

impl<E> EventPool<E> {
    /// An empty pool.
    pub fn new() -> (r: Self)
        ensures
            r@ == Seq::<E>::empty(),
    {
        EventPool { events: Vec::new() }
    }

    /// A pool seeded with exactly one event, used to start a wave.
    pub fn from(event: E) -> (r: Self)
        ensures
            r@ == seq![event],
    {
        let mut events = Vec::new();
        events.push(event);
        EventPool { events }
    }

    /// Enqueues an event at the back.
    pub fn send(&mut self, event: E)
        ensures
            final(self)@ == old(self)@.push(event),
    {
        self.events.push(event);
    }

    /// The number of pending events.
    pub fn len(&self) -> (n: usize)
        ensures
            n == self@.len(),
    {
        self.events.len()
    }

    /// Dequeues the front event; `None` signals an empty queue, not an error.
    pub fn pop(&mut self) -> (r: Option<E>)
        ensures
            old(self)@.len() == 0 ==> r is None && final(self)@ == old(self)@,
            old(self)@.len() > 0 ==> r == Some(old(self)@[0]) && final(self)@ == old(self)@.drop_first(),
    {
        if self.events.len() == 0 {
            None
        } else {
            Some(self.events.remove(0))
        }
    }
}

} // verus!
