//! The network side of the communicator.

use vstd::prelude::*;

verus! {

/// Connects to the network. There is no network yet, so it does nothing.
pub fn connect() {
}

} // verus!
