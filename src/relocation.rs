use vstd::prelude::*;
use crate::bignum::{BigNum, big_add, big_from_usize};
use crate::memory::{Memory, MemoryError, segment_view, cell_view};
use crate::relocatable::{Relocatable, MaybeRelocatable, ValueModel};

verus! {

/// Flat address where segment `i` starts: the sizes of the segments before it, summed.
pub open spec fn seg_base(m: Seq<Seq<Option<ValueModel>>>, i: int) -> int
    decreases i,
{
    if i <= 0 {
        0
    } else {
        seg_base(m, i - 1) + m[i - 1].len()
    }
}

/// The flat integer that `a` becomes.
pub open spec fn relocated_address(m: Seq<Seq<Option<ValueModel>>>, a: Relocatable) -> int {
    seg_base(m, a.segment_index as int) + a.offset
}

/// A cell after relocation: scalars stay, addresses become flat integers, holes stay holes.
pub open spec fn relocated_cell(m: Seq<Seq<Option<ValueModel>>>, c: Option<ValueModel>) -> Option<int> {
    match c {
        None => None,
        Some(ValueModel::Int(n)) => Some(n),
        Some(ValueModel::Addr(a)) => Some(relocated_address(m, a)),
    }
}

/// The first `n` segments laid end to end, relocated.
pub open spec fn flat_upto(m: Seq<Seq<Option<ValueModel>>>, n: int) -> Seq<Option<int>>
    decreases n,
{
    if n <= 0 {
        Seq::empty()
    } else {
        flat_upto(m, n - 1) + m[n - 1].map_values(|c: Option<ValueModel>| relocated_cell(m, c))
    }
}

/// The whole memory, relocated.
pub open spec fn relocated_memory(m: Seq<Seq<Option<ValueModel>>>) -> Seq<Option<int>> {
    flat_upto(m, m.len() as int)
}

/// Every address stored in memory names an allocated segment.
pub open spec fn addresses_known(m: Seq<Seq<Option<ValueModel>>>) -> bool {
    forall|i: int, j: int|
        0 <= i < m.len() && 0 <= j < m[i].len() && (#[trigger] m[i][j]) is Some && m[i][j]->0 is Addr
            ==> (m[i][j]->0->Addr_0).segment_index < m.len()
}

pub open spec fn opt_view(o: Option<BigNum>) -> Option<int> {
    match o {
        Some(n) => Some(n@),
        None => None,
    }
}

pub open spec fn flat_view(v: Seq<Option<BigNum>>) -> Seq<Option<int>> {
    v.map_values(|o: Option<BigNum>| opt_view(o))
}

proof fn lemma_seg_base_mono(m: Seq<Seq<Option<ValueModel>>>, i: int, k: int)
    requires
        0 <= i <= k,
    ensures
        seg_base(m, i) <= seg_base(m, k),
    decreases k - i,
{
    if i < k {
        lemma_seg_base_mono(m, i, k - 1);
    }
}

proof fn lemma_flat_upto(m: Seq<Seq<Option<ValueModel>>>, n: int, i: int, j: int)
    requires
        0 <= n <= m.len(),
        0 <= i < n,
        0 <= j < m[i].len(),
    ensures
        flat_upto(m, n).len() == seg_base(m, n),
        seg_base(m, i) + j < seg_base(m, n),
        flat_upto(m, n)[seg_base(m, i) + j] == relocated_cell(m, m[i][j]),
    decreases n,
{
    lemma_flat_len(m, n);
    lemma_flat_len(m, n - 1);
    lemma_seg_base_mono(m, 0, i);
    assert(seg_base(m, 0) == 0);
    let tail = m[n - 1].map_values(|c: Option<ValueModel>| relocated_cell(m, c));
    assert(flat_upto(m, n) == flat_upto(m, n - 1) + tail);
    if i < n - 1 {
        lemma_flat_upto(m, n - 1, i, j);
        assert(flat_upto(m, n)[seg_base(m, i) + j] == flat_upto(m, n - 1)[seg_base(m, i) + j]);
    } else {
        assert(tail[j] == relocated_cell(m, m[i][j]));
        assert(flat_upto(m, n)[seg_base(m, i) + j] == tail[j]);
    }
}

proof fn lemma_flat_len(m: Seq<Seq<Option<ValueModel>>>, n: int)
    requires
        0 <= n <= m.len(),
    ensures
        flat_upto(m, n).len() == seg_base(m, n),
    decreases n,
{
    if n > 0 {
        lemma_flat_len(m, n - 1);
    }
}

/// An address stored in a cell relocates, inside the flat memory, to the same
/// integer as the address relocated on its own.
pub proof fn lemma_relocation_nested(m: Seq<Seq<Option<ValueModel>>>, i: int, j: int, a: Relocatable)
    requires
        0 <= i < m.len(),
        0 <= j < m[i].len(),
        m[i][j] == Some(ValueModel::Addr(a)),
    ensures
        seg_base(m, i) + j < relocated_memory(m).len(),
        relocated_memory(m)[seg_base(m, i) + j] == Some(relocated_address(m, a)),
{
    lemma_flat_upto(m, m.len() as int, i, j);
}

/// Relocation depends on the memory's contents alone: equal contents give
/// equal flat memories.
pub proof fn lemma_relocation_deterministic(m1: &Memory, m2: &Memory)
    requires
        m1@ == m2@,
    ensures
        relocated_memory(m1@) == relocated_memory(m2@),
{
}

/// Relocation keeps the order of addresses: by segment, then by offset
/// within a segment's extent.
pub proof fn lemma_relocation_order(m: Seq<Seq<Option<ValueModel>>>, a: Relocatable, b: Relocatable)
    requires
        a.segment_index < m.len(),
        b.segment_index < m.len(),
        a.offset < m[a.segment_index as int].len(),
        a.segment_index < b.segment_index || (a.segment_index == b.segment_index && a.offset < b.offset),
    ensures
        relocated_address(m, a) < relocated_address(m, b),
{
    if a.segment_index < b.segment_index {
        lemma_seg_base_mono(m, a.segment_index as int + 1, b.segment_index as int);
    }
}

impl Memory {
    /// Flat address where each segment starts.
    pub fn segment_bases(&self) -> (r: Vec<usize>)
        requires
            seg_base(self@, self@.len() as int) <= usize::MAX,
        ensures
            r@.len() == self@.len(),
            forall|i: int| 0 <= i < r@.len() ==> r@[i] == seg_base(self@, i),
    {
        let mut r: Vec<usize> = Vec::new();
        let mut acc: usize = 0;
        let mut i: usize = 0;
        while i < self.data.len()
            invariant
                i <= self.data@.len(),
                self@.len() == self.data@.len(),
                seg_base(self@, self@.len() as int) <= usize::MAX,
                r@.len() == i,
                acc == seg_base(self@, i as int),
                forall|k: int| 0 <= k < i ==> r@[k] == seg_base(self@, k),
            decreases self.data@.len() - i,
        {
            proof {
                lemma_seg_base_mono(self@, i as int + 1, self@.len() as int);
                assert(self@[i as int].len() == self.data@[i as int]@.len());
            }
            r.push(acc);
            acc = acc + self.data[i].len();
            i = i + 1;
        }
        r
    }

    /// Rewrites every cell as a flat integer sequence: segments end to end,
    /// each address replaced by its segment's base plus its offset. Holes
    /// stay `None`. Fails when a stored address names an unallocated segment.
    pub fn relocate(&self) -> (r: Result<Vec<Option<BigNum>>, MemoryError>)
        requires
            seg_base(self@, self@.len() as int) <= usize::MAX,
        ensures
            r is Ok <==> addresses_known(self@),
            r matches Ok(v) ==> flat_view(v@) == relocated_memory(self@),
            r matches Err(e) ==> e is UnknownSegment,
    {
        let bases = self.segment_bases();
        let ghost m = self@;
        let mut out: Vec<Option<BigNum>> = Vec::new();
        let mut i: usize = 0;
        while i < self.data.len()
            invariant
                m == self@,
                bases@.len() == m.len(),
                forall|k: int| 0 <= k < bases@.len() ==> bases@[k] == seg_base(m, k),
                i <= self.data@.len(),
                m.len() == self.data@.len(),
                flat_view(out@) == flat_upto(m, i as int),
                forall|a: int, b: int|
                    0 <= a < i && 0 <= b < m[a].len() && (#[trigger] m[a][b]) is Some && m[a][b]->0 is Addr
                        ==> (m[a][b]->0->Addr_0).segment_index < m.len(),
            decreases self.data@.len() - i,
        {
            let seg = &self.data[i];
            let ghost out0 = out@;
            assert(m[i as int] == segment_view(seg@));
            let mut j: usize = 0;
            while j < seg.len()
                invariant
                    m == self@,
                    seg == &self.data@[i as int],
                    m[i as int] == segment_view(seg@),
                    bases@.len() == m.len(),
                    forall|k: int| 0 <= k < bases@.len() ==> bases@[k] == seg_base(m, k),
                    i < self.data@.len(),
                    m.len() == self.data@.len(),
                    j <= seg@.len(),
                    flat_view(out@) == flat_upto(m, i as int) + m[i as int].take(j as int).map_values(
                        |c: Option<ValueModel>| relocated_cell(m, c),
                    ),
                    forall|a: int, b: int|
                        0 <= a < i && 0 <= b < m[a].len() && (#[trigger] m[a][b]) is Some && m[a][b]->0 is Addr
                            ==> (m[a][b]->0->Addr_0).segment_index < m.len(),
                    forall|b: int|
                        0 <= b < j && (#[trigger] m[i as int][b]) is Some && m[i as int][b]->0 is Addr
                            ==> (m[i as int][b]->0->Addr_0).segment_index < m.len(),
                decreases seg@.len() - j,
            {
                let ghost before = flat_view(out@);
                assert(m[i as int][j as int] == cell_view(seg@[j as int]));
                let cell: Option<BigNum> = match &seg[j] {
                    None => None,
                    Some(MaybeRelocatable::Int(n)) => Some(n.duplicate()),
                    Some(MaybeRelocatable::RelocatableValue(a)) => {
                        match relocate_address(&bases, a) {
                            Ok(n) => Some(n),
                            Err(e) => {
                                return Err(e);
                            },
                        }
                    },
                };
                out.push(cell);
                proof {
                    assert(flat_view(out@) =~= before.push(relocated_cell(m, m[i as int][j as int])));
                    assert(m[i as int].take(j as int + 1) =~= m[i as int].take(j as int).push(m[i as int][j as int]));
                    assert(m[i as int].take(j as int + 1).map_values(|c: Option<ValueModel>| relocated_cell(m, c))
                        =~= m[i as int].take(j as int).map_values(|c: Option<ValueModel>| relocated_cell(m, c)).push(
                        relocated_cell(m, m[i as int][j as int])));
                }
                j = j + 1;
            }
            proof {
                assert(m[i as int].take(j as int) =~= m[i as int]);
            }
            i = i + 1;
        }
        Ok(out)
    }
}

/// The flat integer that `addr` becomes, given the segments' bases.
pub fn relocate_address(bases: &Vec<usize>, addr: &Relocatable) -> (r: Result<BigNum, MemoryError>)
    ensures
        (addr.segment_index < bases@.len()) == (r is Ok),
        r matches Ok(n) ==> n@ == bases@[addr.segment_index as int] + addr.offset,
        r matches Err(e) ==> e == MemoryError::UnknownSegment(addr.segment_index),
{
    if addr.segment_index >= bases.len() {
        return Err(MemoryError::UnknownSegment(addr.segment_index));
    }
    let b = big_from_usize(bases[addr.segment_index]);
    let o = big_from_usize(addr.offset);
    Ok(big_add(&b, &o))
}

} // verus!
