//! A module with a public and a private function and a private module inside
//! it: what is public can be reached from outside, what is private only from
//! this module and the modules inside it.

use vstd::prelude::*;

mod inside;

verus! {

/// Public: any module that can reach `outermost` can call it.
pub fn middle_function() {
}

/// Private: only `outermost` and the modules inside it can call it.
#[allow(dead_code)]
fn middle_secret_function() {
}

} // verus!
