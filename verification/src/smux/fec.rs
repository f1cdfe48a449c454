//! Packets that carry forward error correction.

use crate::wire::{be32, le16, read_be32, read_le16};
use vstd::prelude::*;

verus! {

/// A packet: a number, a flag, and what follows them.
pub struct FecPacket<'a>(pub &'a [u8]);

impl<'a> FecPacket<'a> {
    /// The number of the packet, most significant byte first.
    pub fn seq_id(&self) -> (id: u32)
        requires
            4 <= self.0@.len(),
        ensures
            be32(id) == self.0@.take(4),
    {
        let id: u32 = read_be32(self.0[0], self.0[1], self.0[2], self.0[3]);
        proof {
            assert(self.0@.take(4) =~= be32(id));
        }
        id
    }

    /// The flag of the packet, least significant byte first.
    pub fn flag(&self) -> (flag: u16)
        requires
            6 <= self.0@.len(),
        ensures
            le16(flag) == self.0@.subrange(4, 6),
    {
        let flag: u16 = read_le16(self.0[4], self.0[5]);
        proof {
            assert(self.0@.subrange(4, 6) =~= le16(flag));
        }
        flag
    }

    /// What follows the number and the flag.
    pub fn data(&self) -> (data: &[u8])
        requires
            6 <= self.0@.len(),
        ensures
            data@ == self.0@.skip(6),
    {
        let len: usize = self.0.len();
        let data = &self.0[6..len];
        proof {
            assert(data@ =~= self.0@.skip(6));
        }
        data
    }
}

} // verus!
