//! Event fan-out: "document opened" events travel from the document store to
//! the registration consumer through a first-in-first-out queue, so servers
//! are registered in the order documents were first opened.

use vstd::prelude::*;

verus! {

/// A FIFO queue of "document opened" events, each the opened document's path.
pub struct EventQueue {
    pub events: Vec<String>,
}

impl EventQueue {
    pub fn new() -> (q: EventQueue)
        ensures
            q.events@.len() == 0,
    {
        EventQueue { events: Vec::new() }
    }

    /// Publishes one event at the back of the queue; earlier events keep
    /// their places.
    pub fn publish(&mut self, path: &str)
        ensures
            final(self).events@.len() == old(self).events@.len() + 1,
            final(self).events@[old(self).events@.len() as int]@ == path@,
            forall|i: int|
                0 <= i < old(self).events@.len() ==> final(self).events@[i] == old(
                    self,
                ).events@[i],
    {
        self.events.push(path.to_owned());
    }

    /// Takes the oldest event, if one is queued: consumption preserves
    /// arrival order.
    pub fn next(&mut self) -> (r: Option<String>)
        ensures
            match r {
                Some(e) => {
                    &&& old(self).events@.len() > 0
                    &&& e == old(self).events@[0]
                    &&& final(self).events@ == old(self).events@.skip(1)
                },
                None => old(self).events@.len() == 0 && *final(self) == *old(self),
            },
    {
        if self.events.len() == 0 {
            None
        } else {
            let e = self.events.remove(0);
            proof {
                assert(self.events@ =~= old(self).events@.skip(1));
            }
            Some(e)
        }
    }
}

} // verus!
