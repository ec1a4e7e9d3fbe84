//! When a change of the configuration file restarts the server.
use vstd::prelude::*;

verus! {

/// What the watcher finds of the configuration file.
#[derive(Clone, Copy, Debug, PartialEq, Eq, Structural)]
pub enum Change {
    /// The file is as it was.
    Unchanged,
    /// The file has changed: it is to be read, and the server restarted if that works.
    Changed,
}

/// Watches the time of the last change of the configuration file.
pub struct ConfigWatcher {
    /// The time of the last change that was seen; nothing while there is no file.
    pub last: Option<u128>,
}

impl ConfigWatcher {
    /// A watcher that starts from the present state of the file.
    pub fn new(current: Option<u128>) -> (r: Self)
        ensures
            r.last == current,
    {
        ConfigWatcher { last: current }
    }

    /// Looks at the file again. A change is reported once.
    pub fn poll(&mut self, current: Option<u128>) -> (r: Change)
        ensures
            final(self).last == current,
            r == (if current == old(self).last {
                Change::Unchanged
            } else {
                Change::Changed
            }),
    {
        let same = match (self.last, current) {
            (Some(a), Some(b)) => a == b,
            (None, None) => true,
            _ => false,
        };
        self.last = current;
        if same {
            Change::Unchanged
        } else {
            Change::Changed
        }
    }
}

/// Whether the server restarts: only where the file has changed and can be read, so that a broken
/// edit leaves it running.
pub fn restarts(change: Change, readable: bool) -> (r: bool)
    ensures
        r == (change == Change::Changed && readable),
{
    match change {
        Change::Changed => readable,
        Change::Unchanged => false,
    }
}

} // verus!
