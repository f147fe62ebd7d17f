//! A handful of small, independent exercises, each in a module of its own,
//! with their behaviour stated as contracts and proved.

use vstd::prelude::*;

pub mod client;
pub mod color_string;
pub mod guessing_game;
pub mod latin_op;
pub mod network;
pub mod num_vec_op;
pub mod opt;
pub mod outermost;
pub mod text;

verus! {

/// Calls what the root of the crate can reach of `outermost`: its public
/// function. Its private function and its private module are out of reach
/// from here.
pub fn try_me() {
    outermost::middle_function();
}

} // verus!
