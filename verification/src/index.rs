use vstd::prelude::*;

use crate::address::Address;

verus! {

/// The ids held under an address, or the empty sequence where the address
/// has no entry (the reading every caller makes of a missing entry).
pub open spec fn ids_in(m: Map<Seq<char>, Seq<u64>>, owner: Seq<char>) -> Seq<u64> {
    if m.contains_key(owner) {
        m[owner]
    } else {
        Seq::empty()
    }
}

struct OwnerEntry {
    owner: Address,
    ids: Vec<u64>,
}

/// The list of token ids stored under each owner, in the order they were added.
pub struct OwnerIndex {
    entries: Vec<OwnerEntry>,
    contents: Ghost<Map<Seq<char>, Seq<u64>>>,
}

impl View for OwnerIndex {
    type V = Map<Seq<char>, Seq<u64>>;

    closed spec fn view(&self) -> Map<Seq<char>, Seq<u64>> {
        self.contents@
    }
}

fn copy_ids(ids: &Vec<u64>) -> (out: Vec<u64>)
    ensures
        out@ == ids@,
{
    let mut out: Vec<u64> = Vec::new();
    let mut i: usize = 0;
    while i < ids.len()
        invariant
            i <= ids.len(),
            out@ == ids@.take(i as int),
        decreases ids.len() - i,
    {
        out.push(ids[i]);
        i = i + 1;
        assert(out@ =~= ids@.take(i as int));
    }
    assert(ids@.take(ids.len() as int) =~= ids@);
    out
}

impl OwnerIndex {
    /// Every owner has one entry, and the ghost map says what the entries hold.
    pub closed spec fn wf(&self) -> bool {
        &&& forall|i: int, j: int|
            0 <= i < j < self.entries@.len() ==> self.entries@[i].owner@ != self.entries@[j].owner@
        &&& forall|i: int|
            0 <= i < self.entries@.len() ==> #[trigger] self.contents@.contains_key(
                self.entries@[i].owner@,
            ) && self.contents@[self.entries@[i].owner@] == self.entries@[i].ids@
        &&& forall|k: Seq<char>|
            #[trigger] self.contents@.contains_key(k) ==> exists|i: int|
                0 <= i < self.entries@.len() && self.entries@[i].owner@ == k
    }

    pub fn new() -> (index: OwnerIndex)
        ensures
            index.wf(),
            index@ == Map::<Seq<char>, Seq<u64>>::empty(),
    {
        OwnerIndex { entries: Vec::new(), contents: Ghost(Map::empty()) }
    }

    fn position(&self, owner: &Address) -> (pos: Option<usize>)
        requires
            self.wf(),
        ensures
            match pos {
                Some(i) => i < self.entries@.len() && self.entries@[i as int].owner@ == owner@,
                None => !self@.contains_key(owner@),
            },
    {
        let mut i: usize = 0;
        while i < self.entries.len()
            invariant
                self.wf(),
                i <= self.entries@.len(),
                forall|j: int| 0 <= j < i ==> self.entries@[j].owner@ != owner@,
            decreases self.entries.len() - i,
        {
            if self.entries[i].owner == *owner {
                return Some(i);
            }
            i = i + 1;
        }
        None
    }

    /// The ids stored under `owner`, empty where it has no entry.
    pub fn ids_of(&self, owner: &Address) -> (ids: Vec<u64>)
        requires
            self.wf(),
        ensures
            ids@ == ids_in(self@, owner@),
    {
        match self.position(owner) {
            Some(i) => copy_ids(&self.entries[i].ids),
            None => Vec::new(),
        }
    }

    /// Stores `ids` under `owner`, replacing what was there.
    pub fn set(&mut self, owner: &Address, ids: Vec<u64>)
        requires
            old(self).wf(),
        ensures
            final(self).wf(),
            final(self)@ == old(self)@.insert(owner@, ids@),
    {
        let ghost new_contents = self.contents@.insert(owner@, ids@);
        match self.position(owner) {
            Some(i) => {
                let ghost old_entries = self.entries@;
                self.entries.set(i, OwnerEntry { owner: owner.clone(), ids });
                self.contents = Ghost(new_contents);
                assert forall|k: Seq<char>| #[trigger] self.contents@.contains_key(k) implies exists|
                    j: int,
                | 0 <= j < self.entries@.len() && self.entries@[j].owner@ == k by {
                    if k != owner@ {
                        let j = choose|j: int|
                            0 <= j < old_entries.len() && old_entries[j].owner@ == k;
                        assert(self.entries@[j].owner@ == k);
                    } else {
                        assert(self.entries@[i as int].owner@ == k);
                    }
                }
            },
            None => {
                let ghost old_entries = self.entries@;
                self.entries.push(OwnerEntry { owner: owner.clone(), ids });
                self.contents = Ghost(new_contents);
                assert forall|k: Seq<char>| #[trigger] self.contents@.contains_key(k) implies exists|
                    j: int,
                | 0 <= j < self.entries@.len() && self.entries@[j].owner@ == k by {
                    if k != owner@ {
                        let j = choose|j: int|
                            0 <= j < old_entries.len() && old_entries[j].owner@ == k;
                        assert(self.entries@[j].owner@ == k);
                    } else {
                        assert(self.entries@[old_entries.len() as int].owner@ == k);
                    }
                }
            },
        }
    }
}

struct OperatorEntry {
    owner: Address,
    operator: Address,
    approved: bool,
}

/// The operator flag stored for each `(owner, operator)` pair.
pub struct OperatorTable {
    entries: Vec<OperatorEntry>,
    contents: Ghost<Map<(Seq<char>, Seq<char>), bool>>,
}

impl View for OperatorTable {
    type V = Map<(Seq<char>, Seq<char>), bool>;

    closed spec fn view(&self) -> Map<(Seq<char>, Seq<char>), bool> {
        self.contents@
    }
}

impl OperatorTable {
    /// Every pair has one entry, and the ghost map says what the entries hold.
    pub closed spec fn wf(&self) -> bool {
        &&& forall|i: int, j: int|
            0 <= i < j < self.entries@.len() ==> (self.entries@[i].owner@,
            self.entries@[i].operator@) != (self.entries@[j].owner@, self.entries@[j].operator@)
        &&& forall|i: int|
            0 <= i < self.entries@.len() ==> #[trigger] self.contents@.contains_key(
                (self.entries@[i].owner@, self.entries@[i].operator@),
            ) && self.contents@[(self.entries@[i].owner@, self.entries@[i].operator@)]
                == self.entries@[i].approved
        &&& forall|k: (Seq<char>, Seq<char>)|
            #[trigger] self.contents@.contains_key(k) ==> exists|i: int|
                0 <= i < self.entries@.len() && (self.entries@[i].owner@, self.entries@[i].operator@)
                    == k
    }

    pub fn new() -> (table: OperatorTable)
        ensures
            table.wf(),
            table@ == Map::<(Seq<char>, Seq<char>), bool>::empty(),
    {
        OperatorTable { entries: Vec::new(), contents: Ghost(Map::empty()) }
    }

    fn position(&self, owner: &Address, operator: &Address) -> (pos: Option<usize>)
        requires
            self.wf(),
        ensures
            match pos {
                Some(i) => i < self.entries@.len() && self.entries@[i as int].owner@ == owner@
                    && self.entries@[i as int].operator@ == operator@,
                None => !self@.contains_key((owner@, operator@)),
            },
    {
        let mut i: usize = 0;
        while i < self.entries.len()
            invariant
                self.wf(),
                i <= self.entries@.len(),
                forall|j: int|
                    0 <= j < i ==> (self.entries@[j].owner@, self.entries@[j].operator@) != (
                    owner@,
                    operator@,
                ),
            decreases self.entries.len() - i,
        {
            if self.entries[i].owner == *owner && self.entries[i].operator == *operator {
                return Some(i);
            }
            i = i + 1;
        }
        None
    }

    /// The flag stored for `(owner, operator)`, if any.
    pub fn get(&self, owner: &Address, operator: &Address) -> (flag: Option<bool>)
        requires
            self.wf(),
        ensures
            flag == (if self@.contains_key((owner@, operator@)) {
                Some(self@[(owner@, operator@)])
            } else {
                None
            }),
    {
        match self.position(owner, operator) {
            Some(i) => Some(self.entries[i].approved),
            None => None,
        }
    }

    /// Stores `approved` for `(owner, operator)`, replacing what was there.
    pub fn set(&mut self, owner: &Address, operator: &Address, approved: bool)
        requires
            old(self).wf(),
        ensures
            final(self).wf(),
            final(self)@ == old(self)@.insert((owner@, operator@), approved),
    {
        let ghost key = (owner@, operator@);
        let ghost new_contents = self.contents@.insert(key, approved);
        let entry = OperatorEntry { owner: owner.clone(), operator: operator.clone(), approved };
        let ghost old_entries = self.entries@;
        match self.position(owner, operator) {
            Some(i) => {
                self.entries.set(i, entry);
                self.contents = Ghost(new_contents);
                assert forall|k: (Seq<char>, Seq<char>)| #[trigger] self.contents@.contains_key(
                    k,
                ) implies exists|j: int|
                    0 <= j < self.entries@.len() && (self.entries@[j].owner@,
                    self.entries@[j].operator@) == k by {
                    if k != key {
                        let j = choose|j: int|
                            0 <= j < old_entries.len() && (old_entries[j].owner@,
                            old_entries[j].operator@) == k;
                        assert((self.entries@[j].owner@, self.entries@[j].operator@) == k);
                    } else {
                        assert((self.entries@[i as int].owner@, self.entries@[i as int].operator@)
                            == k);
                    }
                }
            },
            None => {
                self.entries.push(entry);
                self.contents = Ghost(new_contents);
                assert forall|k: (Seq<char>, Seq<char>)| #[trigger] self.contents@.contains_key(
                    k,
                ) implies exists|j: int|
                    0 <= j < self.entries@.len() && (self.entries@[j].owner@,
                    self.entries@[j].operator@) == k by {
                    if k != key {
                        let j = choose|j: int|
                            0 <= j < old_entries.len() && (old_entries[j].owner@,
                            old_entries[j].operator@) == k;
                        assert((self.entries@[j].owner@, self.entries@[j].operator@) == k);
                    } else {
                        let n = old_entries.len() as int;
                        assert((self.entries@[n].owner@, self.entries@[n].operator@) == k);
                    }
                }
            },
        }
    }
}

} // verus!
