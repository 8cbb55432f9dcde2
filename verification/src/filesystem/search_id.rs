use vstd::prelude::*;

verus! {

/// A unique identifier handed out for each opened volume, directory or file.
#[derive(Debug, Clone, Copy, PartialEq, Eq, Structural)]
pub struct SearchId(pub u32);

/// The number that follows `x` when ids are counted with wrap-around.
pub open spec fn next_search_id(x: u32) -> u32 {
    if x == u32::MAX {
        0
    } else {
        (x + 1) as u32
    }
}

/// Hands out search ids in sequence, wrapping around at `u32::MAX`.
pub struct SearchIdGenerator {
    next_id: u32,
}

impl SearchIdGenerator {
    /// The id that the next call of `get` hands out.
    pub closed spec fn peek(self) -> u32 {
        self.next_id
    }

    /// Create a generator whose first id is `offset`.
    pub fn new(offset: u32) -> (g: SearchIdGenerator)
        ensures
            g.peek() == offset,
    {
        SearchIdGenerator { next_id: offset }
    }

    /// Hand out the next id.
    pub fn get(&mut self) -> (id: SearchId)
        ensures
            id == SearchId(old(self).peek()),
            final(self).peek() == next_search_id(old(self).peek()),
    {
        let id: u32 = self.next_id;
        self.next_id = self.next_id.wrapping_add(1);
        SearchId(id)
    }
}

} // verus!
