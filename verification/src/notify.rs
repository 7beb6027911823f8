use vstd::prelude::*;

verus! {

/// Counts the change notifications fired after ledger mutations; the host
/// forwards each increment to its subscribers, who re-fetch the history.
pub struct Notifier {
    pub count: u64,
}

impl Notifier {
    pub fn new() -> (n: Notifier)
        ensures
            n.count == 0,
    {
        Notifier { count: 0 }
    }

    /// Fires exactly one change notification.
    pub fn notify(&mut self)
        requires
            old(self).count < u64::MAX,
        ensures
            final(self).count == old(self).count + 1,
    {
        self.count = self.count + 1;
    }
}

} // verus!
