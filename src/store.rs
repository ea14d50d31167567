//! The record store: a map from addresses to records, kept as a list of
//! entries in which the last entry for an address is the one that counts.

use vstd::prelude::*;
use crate::address::Address;
use crate::records::Record;

verus! {

/// The map that a list of entries stands for.
pub open spec fn map_of(s: Seq<(Address, Record)>) -> Map<Seq<u8>, Record>
    decreases s.len(),
{
    if s.len() == 0 {
        Map::empty()
    } else {
        map_of(s.drop_last()).insert(s.last().0@, s.last().1)
    }
}

proof fn lemma_absent_suffix(s: Seq<(Address, Record)>, i: int, k: Seq<u8>)
    requires
        0 <= i <= s.len(),
        forall|j: int| i <= j < s.len() ==> s[j].0@ != k,
    ensures
        map_of(s).contains_key(k) == map_of(s.take(i)).contains_key(k),
        map_of(s).contains_key(k) ==> map_of(s)[k] == map_of(s.take(i))[k],
    decreases s.len(),
{
    if i < s.len() {
        lemma_absent_suffix(s.drop_last(), i, k);
        assert(s.drop_last().take(i) =~= s.take(i));
    } else {
        assert(s.take(i) =~= s);
    }
}

proof fn lemma_update_last(s: Seq<(Address, Record)>, i: int, a: Address, r: Record)
    requires
        0 <= i < s.len(),
        s[i].0@ == a@,
        forall|j: int| i < j < s.len() ==> s[j].0@ != a@,
    ensures
        map_of(s.update(i, (a, r))) =~= map_of(s).insert(a@, r),
    decreases s.len(),
{
    let t = s.update(i, (a, r));
    if i == s.len() - 1 {
        assert(t.drop_last() =~= s.drop_last());
    } else {
        lemma_update_last(s.drop_last(), i, a, r);
        assert(t.drop_last() =~= s.drop_last().update(i, (a, r)));
    }
}

pub struct RecordStore {
    entries: Vec<(Address, Record)>,
}

impl View for RecordStore {
    type V = Map<Seq<u8>, Record>;

    closed spec fn view(&self) -> Map<Seq<u8>, Record> {
        map_of(self.entries@)
    }
}

impl RecordStore {
    pub fn new() -> (r: RecordStore)
        ensures
            r@ == Map::<Seq<u8>, Record>::empty(),
    {
        RecordStore { entries: Vec::new() }
    }

    /// Position of the last entry for `key`.
    fn find(&self, key: &Address) -> (r: Option<usize>)
        ensures
            match r {
                Some(i) => {
                    &&& i < self.entries@.len()
                    &&& self.entries@[i as int].0@ == key@
                    &&& forall|j: int| i < j < self.entries@.len() ==> self.entries@[j].0@ != key@
                    &&& self@.contains_key(key@)
                    &&& self@[key@] == self.entries@[i as int].1
                },
                None => !self@.contains_key(key@),
            },
    {
        let ghost s = self.entries@;
        let mut i: usize = self.entries.len();
        while i > 0
            invariant
                i <= s.len(),
                s == self.entries@,
                forall|j: int| i <= j < s.len() ==> s[j].0@ != key@,
            decreases i,
        {
            i = i - 1;
            if self.entries[i].0.same_as(key) {
                proof {
                    lemma_absent_suffix(s, i + 1, key@);
                    assert(s.take(i + 1).drop_last() =~= s.take(i as int));
                }
                return Some(i);
            }
        }
        proof {
            lemma_absent_suffix(s, 0, key@);
            assert(s.take(0) =~= Seq::<(Address, Record)>::empty());
        }
        None
    }

    /// The record at `key`, if any.
    pub fn get(&self, key: &Address) -> (r: Option<&Record>)
        ensures
            match r {
                Some(rec) => self@.contains_key(key@) && self@[key@] == *rec,
                None => !self@.contains_key(key@),
            },
    {
        match self.find(key) {
            Some(i) => Some(&self.entries[i].1),
            None => None,
        }
    }

    /// Whether `key` holds a record.
    pub fn contains(&self, key: &Address) -> (r: bool)
        ensures
            r == self@.contains_key(key@),
    {
        self.find(key).is_some()
    }

    /// Stores `rec` at `key`, replacing what was there.
    pub fn put(&mut self, key: Address, rec: Record)
        ensures
            final(self)@ == old(self)@.insert(key@, rec),
    {
        match self.find(&key) {
            Some(i) => {
                proof {
                    lemma_update_last(self.entries@, i as int, key, rec);
                }
                self.entries.set(i, (key, rec));
            },
            None => {
                let ghost s = self.entries@;
                self.entries.push((key, rec));
                proof {
                    assert(self.entries@.drop_last() =~= s);
                    assert(map_of(self.entries@) =~= map_of(s).insert(key@, rec));
                }
            },
        }
    }
}

} // verus!
