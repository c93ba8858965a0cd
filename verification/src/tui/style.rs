//! How a piece of text looks.

use vstd::prelude::*;

verus! {

/// The colours of one piece of text, as the terminal numbers them.
#[derive(Debug, PartialEq, Eq, Clone, Copy)]
pub struct StyleRef {
    pub fg: u16,
    pub bg: u16,
}

} // verus!
