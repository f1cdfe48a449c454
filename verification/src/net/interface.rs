//! The numbers of network interfaces, remembered for a while.

use vstd::hash_map::StringHashMap;
use vstd::prelude::*;

verus! {

/// How long a number is remembered, in nanoseconds.
pub const INDEX_EXPIRE_NANOS: u64 = 5_000_000_000;

/// The most bytes of an interface name, with the zero that ends it.
pub const IFNAMSIZ: usize = 16;

/// Whether a name is short enough to be looked up.
pub fn valid_name(iface: &str) -> (valid: bool)
    ensures
        valid == (vstd::utf8::encode_utf8(iface@).len() < IFNAMSIZ),
{
    iface.as_bytes().len() < IFNAMSIZ
}

/// What is remembered of a name at a time: the number, where it was found no longer ago than
/// that.
pub open spec fn remembered(
    cache: Map<Seq<char>, (u32, u64)>,
    iface: Seq<char>,
    now: u64,
) -> Option<u32> {
    if cache.dom().contains(iface) && now - cache[iface].1 < INDEX_EXPIRE_NANOS {
        Some(cache[iface].0)
    } else {
        None
    }
}

/// The numbers that were found, and when.
pub struct IndexCache {
    found: StringHashMap<(u32, u64)>,
}

impl View for IndexCache {
    type V = Map<Seq<char>, (u32, u64)>;

    closed spec fn view(&self) -> Map<Seq<char>, (u32, u64)> {
        self.found@
    }
}

impl IndexCache {
    /// Nothing is remembered.
    pub fn new() -> (cache: Self)
        ensures
            cache@ == Map::<Seq<char>, (u32, u64)>::empty(),
    {
        IndexCache { found: StringHashMap::new() }
    }

    /// The number of an interface, where it is remembered.
    pub fn get(&self, iface: &str, now: u64) -> (index: Option<u32>)
        ensures
            index == remembered(self@, iface@, now),
    {
        match self.found.get(iface) {
            Some(entry) => {
                let (index, time) = *entry;
                let age: u64 = if time <= now {
                    now - time
                } else {
                    0
                };
                if age < INDEX_EXPIRE_NANOS {
                    Some(index)
                } else {
                    None
                }
            },
            None => None,
        }
    }

    /// Remembers the number of an interface.
    pub fn insert(&mut self, iface: &str, index: u32, now: u64)
        ensures
            final(self)@ == old(self)@.insert(iface@, (index, now)),
    {
        self.found.insert(iface.to_owned(), (index, now));
    }
}

/// A number that was found is remembered until it has expired, and then no more.
pub proof fn law_numbers_expire(
    cache: Map<Seq<char>, (u32, u64)>,
    iface: Seq<char>,
    index: u32,
    found: u64,
    now: u64,
)
    requires
        found <= now,
    ensures
        remembered(cache.insert(iface, (index, found)), iface, now) == (if now - found
            < INDEX_EXPIRE_NANOS {
            Some(index)
        } else {
            None
        }),
{
}

/// What is remembered of an interface is the number that was found last, for less than five
/// seconds; of one that was never looked up nothing is, and looking one up leaves the others.
pub proof fn law_numbers_are_remembered_for_a_while(
    cache: Map<Seq<char>, (u32, u64)>,
    iface: Seq<char>,
    other: Seq<char>,
    index: u32,
    found: u64,
    now: u64,
)
    requires
        other != iface,
    ensures
        ({
            let after = cache.insert(iface, (index, found));
            &&& remembered(after, iface, now) is Some <==> now < found + 5_000_000_000
            &&& remembered(after, iface, now) matches Some(n) ==> n == index
            &&& remembered(after, other, now) == remembered(cache, other, now)
            &&& !cache.dom().contains(other) ==> remembered(cache, other, now) is None
        }),
{
}

} // verus!
