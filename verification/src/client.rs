//! The client side of the communicator.

use vstd::prelude::*;

verus! {

/// Connects the client. There is nothing to connect to yet, so it does
/// nothing.
pub fn connect() {
}

} // verus!
