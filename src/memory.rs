use vstd::prelude::*;
use crate::relocatable::{Relocatable, MaybeRelocatable, ValueModel};

verus! {

/// A cell seen mathematically: `None` is a hole.
pub open spec fn cell_view(c: Option<MaybeRelocatable>) -> Option<ValueModel> {
    match c {
        Some(v) => Some(v@),
        None => None,
    }
}

pub open spec fn segment_view(s: Seq<Option<MaybeRelocatable>>) -> Seq<Option<ValueModel>> {
    s.map_values(|c: Option<MaybeRelocatable>| cell_view(c))
}

/// The segments after `v` is written at `addr`: the segment grows with holes
/// up to the offset where needed.
pub open spec fn written(
    m: Seq<Seq<Option<ValueModel>>>,
    addr: Relocatable,
    v: ValueModel,
) -> Seq<Seq<Option<ValueModel>>> {
    let s = m[addr.segment_index as int];
    let o = addr.offset as int;
    let grown = if o < s.len() {
        s.update(o, Some(v))
    } else {
        (s + Seq::new((o - s.len()) as nat, |i: int| None::<ValueModel>)).push(Some(v))
    };
    m.update(addr.segment_index as int, grown)
}

/// The cell at `addr`, `None` for a hole or an offset past the segment's end.
pub open spec fn cell_at(m: Seq<Seq<Option<ValueModel>>>, addr: Relocatable) -> Option<ValueModel> {
    let s = m[addr.segment_index as int];
    if (addr.offset as int) < s.len() {
        s[addr.offset as int]
    } else {
        None
    }
}

/// After a write, the cell holds the value written, and writing the same
/// value again leaves memory as it is; the number of segments is unchanged.
pub proof fn lemma_write_then_rewrite(m: Seq<Seq<Option<ValueModel>>>, addr: Relocatable, v: ValueModel)
    requires
        addr.segment_index < m.len(),
    ensures
        written(m, addr, v).len() == m.len(),
        cell_at(written(m, addr, v), addr) == Some(v),
        written(written(m, addr, v), addr, v) == written(m, addr, v),
{
    let m1 = written(m, addr, v);
    assert(m1[addr.segment_index as int][addr.offset as int] == Some(v));
    assert(written(m1, addr, v)[addr.segment_index as int] =~= m1[addr.segment_index as int]);
    assert(written(m1, addr, v) =~= m1);
}

/// Adding a segment makes the next segment index valid, with every cell of
/// it unwritten; the segments before it are kept.
pub proof fn lemma_add_segment_allocates(m: Seq<Seq<Option<ValueModel>>>, addr: Relocatable)
    requires
        addr.segment_index == m.len(),
    ensures
        addr.segment_index < m.push(Seq::<Option<ValueModel>>::empty()).len(),
        cell_at(m.push(Seq::<Option<ValueModel>>::empty()), addr) is None,
        forall|i: int| 0 <= i < m.len() ==> m.push(Seq::<Option<ValueModel>>::empty())[i] == m[i],
{
}

#[derive(Clone, Copy, Debug, PartialEq, Eq, Structural)]
pub enum MemoryError {
    /// The segment index, and the number of allocated segments.
    UnallocatedSegment(usize, usize),
    /// The cell already holds another value.
    InconsistentMemory(Relocatable),
    /// A relocated value names a segment that was never allocated.
    UnknownSegment(usize),
}

/// Write-once segmented memory.
pub struct Memory {
    pub data: Vec<Vec<Option<MaybeRelocatable>>>,
}

impl View for Memory {
    type V = Seq<Seq<Option<ValueModel>>>;

    open spec fn view(&self) -> Seq<Seq<Option<ValueModel>>> {
        self.data@.map_values(|s: Vec<Option<MaybeRelocatable>>| segment_view(s@))
    }
}

impl Memory {
    /// A memory with no segment.
    pub fn new() -> (r: Memory)
        ensures
            r@ == Seq::<Seq<Option<ValueModel>>>::empty(),
    {
        let r = Memory { data: Vec::new() };
        assert(r@ =~= Seq::<Seq<Option<ValueModel>>>::empty());
        r
    }

    /// Number of allocated segments.
    pub fn num_segments(&self) -> (r: usize)
        ensures
            r == self@.len(),
    {
        self.data.len()
    }

    /// Allocates the next segment, empty, and returns its index.
    pub fn add_segment(&mut self) -> (r: usize)
        requires
            old(self)@.len() < usize::MAX,
        ensures
            r == old(self)@.len(),
            final(self)@ == old(self)@.push(Seq::<Option<ValueModel>>::empty()),
    {
        let r = self.data.len();
        self.data.push(Vec::new());
        assert(self@ =~= old(self)@.push(Seq::<Option<ValueModel>>::empty())) by {
            assert(segment_view(Seq::<Option<MaybeRelocatable>>::empty()) =~= Seq::empty());
        }
        r
    }

    /// Writes `val` at `addr`. Writing again the value a cell holds succeeds
    /// and changes nothing; another value there is refused.
    pub fn insert(&mut self, addr: &Relocatable, val: &MaybeRelocatable) -> (r: Result<(), MemoryError>)
        ensures
            old(self)@.len() <= addr.segment_index ==> r == Err::<(), MemoryError>(
                MemoryError::UnallocatedSegment(addr.segment_index, old(self)@.len() as usize),
            ),
            addr.segment_index < old(self)@.len() ==> match cell_at(old(self)@, *addr) {
                Some(w) if w != val@ => r == Err::<(), MemoryError>(MemoryError::InconsistentMemory(*addr)),
                _ => r is Ok,
            },
            r is Ok ==> final(self)@ == written(old(self)@, *addr, val@),
            r is Err ==> final(self)@ == old(self)@,
    {
        let si = addr.segment_index;
        let off = addr.offset;
        if si >= self.data.len() {
            return Err(MemoryError::UnallocatedSegment(si, self.data.len()));
        }
        let ghost m0 = self@;
        let ghost d0 = self.data@;
        if off < self.data[si].len() {
            match &self.data[si][off] {
                Some(w) => {
                    if w.same_value(val) {
                        proof {
                            assert(written(m0, *addr, val@)[si as int] =~= m0[si as int]);
                            assert(written(m0, *addr, val@) =~= m0);
                        }
                        return Ok(());
                    } else {
                        return Err(MemoryError::InconsistentMemory(*addr));
                    }
                },
                None => {},
            }
            let seg = &mut self.data[si];
            seg.set(off, Some(val.duplicate()));
        } else {
            let seg = &mut self.data[si];
            while seg.len() < off
                invariant
                    d0[si as int]@.len() <= seg@.len() <= off,
                    seg@ =~= d0[si as int]@ + Seq::new((seg@.len() - d0[si as int]@.len()) as nat, |i: int| None::<MaybeRelocatable>),
                decreases off - seg@.len(),
            {
                seg.push(None);
            }
            seg.push(Some(val.duplicate()));
        }
        proof {
            assert(segment_view(self.data@[si as int]@) =~= written(m0, *addr, val@)[si as int]);
            assert(self@ =~= written(m0, *addr, val@));
        }
        Ok(())
    }

    /// The value at `addr`, `None` for a cell never written.
    pub fn get(&self, addr: &Relocatable) -> (r: Result<Option<&MaybeRelocatable>, MemoryError>)
        ensures
            self@.len() <= addr.segment_index ==> r == Err::<Option<&MaybeRelocatable>, MemoryError>(
                MemoryError::UnallocatedSegment(addr.segment_index, self@.len() as usize),
            ),
            addr.segment_index < self@.len() ==> r is Ok && match r {
                Ok(Some(v)) => cell_at(self@, *addr) == Some(v@),
                Ok(None) => cell_at(self@, *addr) is None,
                Err(_) => false,
            },
    {
        let si = addr.segment_index;
        if si >= self.data.len() {
            return Err(MemoryError::UnallocatedSegment(si, self.data.len()));
        }
        let seg = &self.data[si];
        if addr.offset < seg.len() {
            match &seg[addr.offset] {
                Some(v) => Ok(Some(v)),
                None => Ok(None),
            }
        } else {
            Ok(None)
        }
    }
}

} // verus!
