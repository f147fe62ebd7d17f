//! A private module: only the module around it can reach what it holds,
//! public or not.

use vstd::prelude::*;

verus! {

/// Public in a private module: the module around `inside` can call it.
#[allow(dead_code)]
pub fn inner_function() {
}

/// Private: only `inside` can call it.
#[allow(dead_code)]
fn secret_function() {
}

} // verus!
