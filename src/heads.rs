//! The latest-head source: the consumer asks for a head and is handed the
//! freshest one seen since its previous answer; heads in between are
//! coalesced.

use vstd::prelude::*;

verus! {

/// The source's state: the freshest head not yet handed out, whether a
/// request waits for the next head, and whether the consumer is still there.
#[derive(Clone, Copy, Debug)]
pub struct HeadSource {
    pub latest: Option<u64>,
    pub waiting: bool,
    pub open: bool,
}

impl HeadSource {
    /// The invariant: a request waits only while no head is held back.
    pub open spec fn wf(&self) -> bool {
        self.waiting ==> self.latest is None
    }

    pub fn new() -> (r: HeadSource)
        ensures
            r.wf(),
            r.latest is None,
            !r.waiting,
            r.open,
    {
        HeadSource { latest: None, waiting: false, open: true }
    }

    /// The consumer asks for a head: answered at once with the head held
    /// back, if any, else when the next head arrives.
    pub fn on_request(&mut self) -> (r: Option<u64>)
        requires
            old(self).wf(),
        ensures
            final(self).wf(),
            final(self).open == old(self).open,
            r == old(self).latest,
            final(self).latest is None,
            final(self).waiting == (old(self).latest is None),
    {
        match self.latest {
            Some(n) => {
                self.latest = None;
                self.waiting = false;
                Some(n)
            },
            None => {
                self.waiting = true;
                None
            },
        }
    }

    /// A head arrives: handed to a waiting request, else held back in place
    /// of any older one.
    pub fn on_head(&mut self, number: u64) -> (r: Option<u64>)
        requires
            old(self).wf(),
        ensures
            final(self).wf(),
            final(self).open == old(self).open,
            !final(self).waiting,
            old(self).waiting ==> r == Some(number) && final(self).latest is None,
            !old(self).waiting ==> r is None && final(self).latest == Some(number),
    {
        if self.waiting {
            self.waiting = false;
            Some(number)
        } else {
            self.latest = Some(number);
            None
        }
    }

    /// The consumer has gone: no more requests will come.
    pub fn on_close(&mut self)
        requires
            old(self).wf(),
        ensures
            final(self).wf(),
            !final(self).open,
            final(self).latest == old(self).latest,
            final(self).waiting == old(self).waiting,
    {
        self.open = false;
    }

    /// Whether the subscription is still needed: the consumer is there or
    /// a request still waits.
    pub fn running(&self) -> (r: bool)
        ensures
            r == (self.open || self.waiting),
    {
        self.open || self.waiting
    }
}

} // verus!
