use vstd::prelude::*;

verus! {

/// A retained-latest topic: a single slot holding the most recently
/// published value. A late subscriber reads exactly that value, never a
/// queue of history; a slow one skips intermediate values. This is the
/// signaling layer the coordinator wires between its services.
pub struct Topic<T> {
    slot: Option<T>,
}

impl<T> View for Topic<T> {
    type V = Option<T>;

    closed spec fn view(&self) -> Option<T> {
        self.slot
    }
}

impl<T> Topic<T> {
    /// A topic on which nothing has been published yet.
    pub fn new() -> (r: Topic<T>)
        ensures
            r@ is None,
    {
        Topic { slot: None }
    }

    /// Publishes a value: it replaces whatever the slot held, and is what
    /// every subscriber sees from now on.
    pub fn publish(&mut self, v: T)
        ensures
            final(self)@ == Some(v),
    {
        self.slot = Some(v);
    }

    /// What a subscriber receives: the most recently published value,
    /// however early or late the subscriber arrives.
    pub fn latest(&self) -> (r: &Option<T>)
        ensures
            *r == self@,
    {
        &self.slot
    }
}

} // verus!
