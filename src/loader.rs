//! Bookkeeping for background loads: each load gets a ticket, and only the
//! result of the latest requested load is applied.
use vstd::prelude::*;

verus! {

/// Load bookkeeping: the ticket of the latest requested load, whether its
/// result is still awaited, and the spinner tick.
#[derive(Clone, Copy, Debug)]
pub struct Loader {
    pub latest: u64,
    pub pending: bool,
    pub tick: usize,
}

/// The state after requesting a new load, and that load's ticket.
pub open spec fn started(s: Loader) -> (Loader, u64) {
    let t = (s.latest + 1) as u64;
    (Loader { latest: t, pending: true, tick: 0 }, t)
}

/// The state after a result with `ticket` arrives, and whether to apply it:
/// only while awaited and only for the latest ticket.
pub open spec fn delivered(s: Loader, ticket: u64) -> (Loader, bool) {
    let apply = s.pending && ticket == s.latest;
    (Loader { pending: s.pending && !apply, ..s }, apply)
}

impl Loader {
    /// No load requested yet.
    pub fn new() -> (r: Loader)
        ensures
            r == (Loader { latest: 0, pending: false, tick: 0 }),
    {
        Loader { latest: 0, pending: false, tick: 0 }
    }

    /// Requests a new load; any earlier one is abandoned.
    pub fn start(&mut self) -> (ticket: u64)
        requires
            old(self).latest < u64::MAX,
        ensures
            (*final(self), ticket) == started(*old(self)),
    {
        self.latest = self.latest + 1;
        self.pending = true;
        self.tick = 0;
        self.latest
    }

    /// A result arrived for `ticket`; says whether it is to be applied.
    pub fn deliver(&mut self, ticket: u64) -> (apply: bool)
        ensures
            (*final(self), apply) == delivered(*old(self), ticket),
    {
        let apply = self.pending && ticket == self.latest;
        if apply {
            self.pending = false;
        }
        apply
    }

    /// A load is requested and its result not yet applied.
    pub fn is_pending(&self) -> (r: bool)
        ensures
            r == self.pending,
    {
        self.pending
    }

    /// Advances the spinner, wrapping around.
    pub fn advance(&mut self)
        ensures
            *final(self) == (Loader {
                tick: if old(self).tick < usize::MAX {
                    (old(self).tick + 1) as usize
                } else {
                    0
                },
                ..*old(self)
            }),
    {
        if self.tick < usize::MAX {
            self.tick = self.tick + 1;
        } else {
            self.tick = 0;
        }
    }
}

/// Reloading while a load is pending abandons it: once a new load is
/// requested, a result carrying any earlier ticket is refused and changes
/// nothing, and the new load's result is applied, once.
pub proof fn lemma_only_latest_load_applies(s: Loader, earlier: u64)
    requires
        s.latest < u64::MAX,
        earlier <= s.latest,
    ensures
        ({
            let (s1, t) = started(s);
            let (s2, stale) = delivered(s1, earlier);
            let (s3, fresh) = delivered(s2, t);
            let (s4, again) = delivered(s3, t);
            &&& !stale
            &&& s2 == s1
            &&& fresh
            &&& !s3.pending
            &&& !again
        }),
{
}

} // verus!
