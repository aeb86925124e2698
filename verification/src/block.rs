//! Blocks: the fixed-size sub-units of a piece, the unit of request on the
//! peer wire.

use vstd::prelude::*;

use crate::util::vecs_u8_equal;

verus! {

/// A portion of a piece that a client may request from a peer: its index
/// within the piece, its byte length, and, once received, its payload.
#[derive(Debug)]
pub struct Block {
    pub index: u32,
    pub length: u32,
    pub data: Option<Vec<u8>>,
}

impl Block {
    /// A block with no data received yet.
    pub fn new(index: u32, length: u32) -> (r: Block)
        ensures
            r.index == index,
            r.length == length,
            r.data is None,
    {
        Block { index, length, data: None }
    }
}

/// Two blocks agree on index, length, and payload bytes.
pub open spec fn spec_block_eq(a: Block, b: Block) -> bool {
    &&& a.index == b.index
    &&& a.length == b.length
    &&& match (a.data, b.data) {
        (None, None) => true,
        (Some(x), Some(y)) => x@ == y@,
        _ => false,
    }
}

impl PartialEq for Block {
    /// Blocks are equal when index, length, and payload bytes agree.
    fn eq(&self, other: &Block) -> (r: bool) {
        if self.index != other.index || self.length != other.length {
            return false;
        }
        match (&self.data, &other.data) {
            (None, None) => true,
            (Some(a), Some(b)) => vecs_u8_equal(a, b),
            _ => false,
        }
    }
}

impl vstd::std_specs::cmp::PartialEqSpecImpl for Block {
    open spec fn obeys_eq_spec() -> bool {
        true
    }

    open spec fn eq_spec(&self, other: &Block) -> bool {
        spec_block_eq(*self, *other)
    }
}

} // verus!
