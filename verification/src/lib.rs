//! Core of a multiplayer word-guessing game: letter-by-letter guess
//! evaluation, terminal-state derivation, and the registration / guess
//! submission state machine over a conditional-update storage model.

use vstd::prelude::*;

pub mod evaluate;
pub mod game;
pub mod ident;
pub mod session;
pub mod store;
pub mod user;

verus! {

/// Greeting served at the root route.
pub fn index() -> (r: &'static str)
    ensures
        r@ == "Hello, world!"@,
{
    "Hello, world!"
}

} // verus!
