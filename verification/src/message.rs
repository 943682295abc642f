//! Input events the application core distinguishes.

use vstd::prelude::*;

verus! {

/// A keyboard event the application reacts to: tab, with whether shift is
/// held.
#[derive(Debug)]
pub enum Key {
    Tab(bool),
}

} // verus!
