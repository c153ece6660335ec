use vstd::prelude::*;
use crate::bignum::{BigNum, big_eq};
use crate::memory::{Memory, cell_view};
use crate::relocatable::{Relocatable, MaybeRelocatable, ValueModel};

verus! {

/// The binding of `k` in a list of assignments: the latest one wins.
pub open spec fn entry_for(s: Seq<(BigNum, MaybeRelocatable)>, k: int) -> Option<ValueModel>
    decreases s.len(),
{
    if s.len() == 0 {
        None
    } else if s.last().0@ == k {
        Some(s.last().1@)
    } else {
        entry_for(s.drop_last(), k)
    }
}

/// What a dictionary holds at `k`: its own entry, else its default.
pub open spec fn dict_value(s: Seq<(BigNum, MaybeRelocatable)>, default: Option<ValueModel>, k: int) -> Option<ValueModel> {
    match entry_for(s, k) {
        Some(v) => Some(v),
        None => default,
    }
}

#[derive(Clone, Copy, Debug, PartialEq, Eq, Structural)]
pub enum DictError {
    /// No dictionary lives in this segment.
    NoDictTracker(usize),
    /// The key is absent and the dictionary has no default.
    NoValueForKey,
}

/// One dictionary: the segment it lives in, its entries and its default.
pub struct DictTracker {
    pub segment: usize,
    pub data: Vec<(BigNum, MaybeRelocatable)>,
    pub default_value: Option<MaybeRelocatable>,
}

impl DictTracker {
    /// What the dictionary holds at `k`.
    pub open spec fn lookup(&self, k: int) -> Option<ValueModel> {
        dict_value(self.data@, cell_view(self.default_value), k)
    }

    /// The value at `key`, or the default when the key is absent.
    pub fn get_value(&self, key: &BigNum) -> (r: Result<MaybeRelocatable, DictError>)
        ensures
            self.lookup(key@) is None ==> r == Err::<MaybeRelocatable, DictError>(DictError::NoValueForKey),
            self.lookup(key@) matches Some(v) ==> r is Ok && r->Ok_0@ == v,
    {
        let ghost s = self.data@;
        let mut j: usize = self.data.len();
        assert(s.take(j as int) =~= s);
        while j > 0
            invariant
                j <= s.len(),
                self.data@ == s,
                entry_for(s, key@) == entry_for(s.take(j as int), key@),
            decreases j,
        {
            let ghost t = s.take(j as int);
            assert(t.drop_last() =~= s.take(j - 1));
            assert(t.last() == s[j - 1]);
            if big_eq(&self.data[j - 1].0, key) {
                return Ok(self.data[j - 1].1.duplicate());
            }
            j = j - 1;
        }
        assert(s.take(0) =~= Seq::<(BigNum, MaybeRelocatable)>::empty());
        match &self.default_value {
            Some(v) => Ok(v.duplicate()),
            None => Err(DictError::NoValueForKey),
        }
    }

    /// Sets `key` to `value`.
    pub fn insert_value(&mut self, key: &BigNum, value: &MaybeRelocatable)
        ensures
            final(self).segment == old(self).segment,
            forall|k: int| #[trigger] final(self).lookup(k) == if k == key@ { Some(value@) } else { old(self).lookup(k) },
    {
        self.data.push((key.duplicate(), value.duplicate()));
        proof {
            assert(self.data@.drop_last() =~= old(self).data@);
        }
    }
}

/// The dictionaries that hints create, each in a segment of its own.
pub struct DictManager {
    pub trackers: Vec<DictTracker>,
}

impl DictManager {
    /// Whether `i` is the first dictionary that lives in segment `seg`.
    pub open spec fn first_in(&self, i: int, seg: usize) -> bool {
        &&& 0 <= i < self.trackers@.len()
        &&& self.trackers@[i].segment == seg
        &&& forall|q: int| 0 <= q < i ==> (#[trigger] self.trackers@[q]).segment != seg
    }

    /// Whether no dictionary lives in segment `seg`.
    pub open spec fn none_in(&self, seg: usize) -> bool {
        forall|q: int| 0 <= q < self.trackers@.len() ==> (#[trigger] self.trackers@[q]).segment != seg
    }

    pub fn new() -> (r: DictManager)
        ensures
            r.trackers@.len() == 0,
    {
        DictManager { trackers: Vec::new() }
    }

    /// Allocates a segment for a new dictionary with the given default and
    /// returns its base address.
    pub fn new_dict(&mut self, memory: &mut Memory, default_value: Option<MaybeRelocatable>) -> (r: Relocatable)
        requires
            old(memory)@.len() < usize::MAX,
        ensures
            r == (Relocatable { segment_index: old(memory)@.len() as usize, offset: 0 }),
            final(memory)@ == old(memory)@.push(Seq::<Option<ValueModel>>::empty()),
            final(self).trackers@ == old(self).trackers@.push(final(self).trackers@.last()),
            final(self).trackers@.last().segment == r.segment_index,
            forall|k: int| #[trigger] final(self).trackers@.last().lookup(k) == cell_view(default_value),
    {
        let seg = memory.add_segment();
        let t = DictTracker { segment: seg, data: Vec::new(), default_value };
        proof {
            assert forall|k: int| #[trigger] t.lookup(k) == cell_view(default_value) by {
                assert(entry_for(t.data@, k) is None);
            }
        }
        self.trackers.push(t);
        Relocatable { segment_index: seg, offset: 0 }
    }

    /// The position of the dictionary that lives in the segment of `ptr`.
    pub fn get_tracker_index(&self, ptr: &Relocatable) -> (r: Result<usize, DictError>)
        ensures
            r matches Ok(i) ==> self.first_in(i as int, ptr.segment_index),
            r is Err ==> r == Err::<usize, DictError>(DictError::NoDictTracker(ptr.segment_index))
                && self.none_in(ptr.segment_index),
    {
        let mut i: usize = 0;
        while i < self.trackers.len()
            invariant
                i <= self.trackers@.len(),
                forall|q: int| 0 <= q < i ==> (#[trigger] self.trackers@[q]).segment != ptr.segment_index,
            decreases self.trackers@.len() - i,
        {
            if self.trackers[i].segment == ptr.segment_index {
                return Ok(i);
            }
            i = i + 1;
        }
        Err(DictError::NoDictTracker(ptr.segment_index))
    }

    /// The value at `key` in the dictionary that lives in the segment of `ptr`.
    pub fn get_value(&self, ptr: &Relocatable, key: &BigNum) -> (r: Result<MaybeRelocatable, DictError>)
        ensures
            self.none_in(ptr.segment_index) ==> r == Err::<MaybeRelocatable, DictError>(
                DictError::NoDictTracker(ptr.segment_index),
            ),
            forall|i: int| #[trigger] self.first_in(i, ptr.segment_index) ==> match self.trackers@[i].lookup(key@) {
                None => r == Err::<MaybeRelocatable, DictError>(DictError::NoValueForKey),
                Some(v) => r is Ok && r->Ok_0@ == v,
            },
    {
        let i = match self.get_tracker_index(ptr) {
            Ok(i) => i,
            Err(e) => {
                return Err(e);
            },
        };
        proof {
            assert forall|k: int| #[trigger] self.first_in(k, ptr.segment_index) implies k == i by {
                if k < i {
                    assert(self.trackers@[k].segment != ptr.segment_index);
                } else if k > i {
                    assert(self.trackers@[i as int].segment != ptr.segment_index);
                }
            }
        }
        self.trackers[i].get_value(key)
    }

    /// Sets `key` to `value` in the dictionary that lives in the segment of
    /// `ptr`; the other dictionaries are kept.
    pub fn insert_value(&mut self, ptr: &Relocatable, key: &BigNum, value: &MaybeRelocatable) -> (r: Result<(), DictError>)
        ensures
            old(self).none_in(ptr.segment_index) ==> r == Err::<(), DictError>(DictError::NoDictTracker(ptr.segment_index))
                && final(self).trackers@ == old(self).trackers@,
            forall|i: int| #[trigger] old(self).first_in(i, ptr.segment_index) ==> {
                &&& r is Ok
                &&& final(self).trackers@.len() == old(self).trackers@.len()
                &&& forall|q: int| 0 <= q < old(self).trackers@.len() && q != i
                    ==> #[trigger] final(self).trackers@[q] == old(self).trackers@[q]
                &&& final(self).trackers@[i].segment == ptr.segment_index
                &&& forall|k: int| #[trigger] final(self).trackers@[i].lookup(k)
                    == if k == key@ { Some(value@) } else { old(self).trackers@[i].lookup(k) }
            },
    {
        let i = match self.get_tracker_index(ptr) {
            Ok(i) => i,
            Err(e) => {
                return Err(e);
            },
        };
        proof {
            assert forall|k: int| #[trigger] old(self).first_in(k, ptr.segment_index) implies k == i by {
                if k < i {
                    assert(old(self).trackers@[k].segment != ptr.segment_index);
                } else if k > i {
                    assert(old(self).trackers@[i as int].segment != ptr.segment_index);
                }
            }
        }
        let t = &mut self.trackers[i];
        t.insert_value(key, value);
        Ok(())
    }
}

} // verus!
