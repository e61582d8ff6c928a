use vstd::prelude::*;

verus! {

/// A failure reported by the location source (permission denied, position
/// unavailable, timeout), with the source's own description of it. The trail
/// simply stops growing; nothing else depends on it.
pub struct LocatorError {
    pub msg: String,
}

impl LocatorError {
    pub fn new(msg: String) -> (r: LocatorError)
        ensures
            r.msg@ == msg@,
    {
        LocatorError { msg }
    }

    /// The description that the location source gave.
    pub fn message(&self) -> (r: String)
        ensures
            r@ == self.msg@,
    {
        self.msg.clone()
    }
}

} // verus!
