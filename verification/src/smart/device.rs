//! The capability that every device stored in a room offers.

use std::sync::Arc;
use vstd::prelude::*;

verus! {

/// A device that can be plugged into a room.
///
/// A device is known to the registry by its name alone: the name is the key
/// under which a room stores it and finds it again, so it must stay the same
/// for as long as the device lives. What else a device is or does is up to
/// the type that implements this trait.
pub trait Pluggable {
    /// The name of the device, as a sequence of characters. It exists for
    /// proofs only: an implementation that is not verified gives it a body
    /// that never runs.
    spec fn spec_name(&self) -> Seq<char>;

    /// Returns the name of the device.
    fn name(&self) -> (name: &str)
        ensures
            name@ == self.spec_name(),
    ;
}

/// Hands out one more handle to the value behind `device`, through
/// `Arc::clone`. Taken on trust: the new handle points to the very same
/// value, so it equals the handle it was made from.
#[verifier::external_body]
pub(crate) fn share<D: ?Sized>(device: &Arc<D>) -> (shared: Arc<D>)
    ensures
        shared == *device,
{
    Arc::clone(device)
}

} // verus!
