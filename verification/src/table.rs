//! The records that a registry retains, by address: each address at most once.

use crate::address::Address;
use vstd::prelude::*;

verus! {

/// One retained record and the address it is kept under.
pub struct Entry<R> {
    pub address: Address,
    pub record: R,
}

/// A finite map from addresses to records.
pub struct FeedTable<R> {
    entries: Vec<Entry<R>>,
    contents: Ghost<Map<Seq<u8>, R>>,
}

impl<R> View for FeedTable<R> {
    type V = Map<Seq<u8>, R>;

    /// The record kept under each address.
    closed spec fn view(&self) -> Map<Seq<u8>, R> {
        self.contents@
    }
}

impl<R: Copy> FeedTable<R> {
    spec fn key_at(&self, i: int) -> Seq<u8> {
        self.entries@[i].address@
    }

    /// The entries hold what the view says, each address once.
    pub closed spec fn wf(&self) -> bool {
        &&& forall|i: int|
            0 <= i < self.entries@.len() ==> self.contents@.contains_key(#[trigger] self.key_at(i))
                && self.contents@[self.key_at(i)] == self.entries@[i].record
        &&& forall|k: Seq<u8>| #[trigger]
            self.contents@.contains_key(k) ==> exists|i: int|
                0 <= i < self.entries@.len() && #[trigger] self.key_at(i) == k
        &&& forall|i: int, j: int|
            0 <= i < j < self.entries@.len() ==> #[trigger] self.key_at(i) != #[trigger] self.key_at(
                j,
            )
    }

    /// The table that holds nothing.
    pub fn new() -> (table: Self)
        ensures
            table.wf(),
            table@ == Map::<Seq<u8>, R>::empty(),
    {
        FeedTable { entries: Vec::new(), contents: Ghost(Map::empty()) }
    }

    /// Where the entry for `address` stands, if there is one.
    fn position(&self, address: &Address) -> (found: Option<usize>)
        requires
            self.wf(),
        ensures
            found.is_some() == self@.contains_key(address@),
            found matches Some(i) ==> i < self.entries@.len() && self.key_at(i as int) == address@,
    {
        let mut i: usize = 0;
        while i < self.entries.len()
            invariant
                i <= self.entries@.len(),
                self.wf(),
                forall|j: int| 0 <= j < i ==> #[trigger] self.key_at(j) != address@,
            decreases self.entries@.len() - i,
        {
            if self.entries[i].address.same_as(address) {
                assert(self.key_at(i as int) == address@);
                return Some(i);
            }
            i = i + 1;
        }
        None
    }

    /// The record kept under `address`, if there is one.
    pub fn get(&self, address: &Address) -> (record: Option<R>)
        requires
            self.wf(),
        ensures
            record == if self@.contains_key(address@) {
                Some(self@[address@])
            } else {
                None
            },
    {
        match self.position(address) {
            Some(i) => {
                assert(self.key_at(i as int) == address@);
                Some(self.entries[i].record)
            },
            None => None,
        }
    }

    /// Keeps `record` under `address`, in place of what was kept there.
    pub fn insert(&mut self, address: Address, record: R)
        requires
            old(self).wf(),
        ensures
            final(self).wf(),
            final(self)@ == old(self)@.insert(address@, record),
    {
        let found = self.position(&address);
        let ghost before = *self;
        match found {
            Some(i) => {
                self.entries.set(i, Entry { address, record });
            },
            None => {
                self.entries.push(Entry { address, record });
            },
        }
        self.contents = Ghost(before.contents@.insert(address@, record));
        proof {
            assert forall|j: int| 0 <= j < self.entries@.len() implies self.contents@.contains_key(
                #[trigger] self.key_at(j),
            ) && self.contents@[self.key_at(j)] == self.entries@[j].record by {
                if j < before.entries@.len() {
                    assert(before.contents@.contains_key(before.key_at(j)));
                }
            }
            assert forall|k: Seq<u8>| #[trigger] self.contents@.contains_key(k) implies exists|
                j: int,
            |
                0 <= j < self.entries@.len() && #[trigger] self.key_at(j) == k by {
                if k == address@ {
                    match found {
                        Some(i) => {
                            assert(self.key_at(i as int) == k);
                        },
                        None => {
                            assert(self.key_at(self.entries@.len() - 1) == k);
                        },
                    }
                } else {
                    assert(before.contents@.contains_key(k));
                    let j = choose|j: int|
                        0 <= j < before.entries@.len() && #[trigger] before.key_at(j) == k;
                    assert(self.key_at(j) == k);
                }
            }
            assert forall|a: int, b: int| 0 <= a < b < self.entries@.len() implies #[trigger]
                self.key_at(a) != #[trigger] self.key_at(b) by {
                if b < before.entries@.len() {
                    assert(before.key_at(a) != before.key_at(b));
                } else {
                    assert(before.contents@.contains_key(before.key_at(a)));
                }
            }
        }
    }
}

} // verus!
