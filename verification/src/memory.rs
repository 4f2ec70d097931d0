use vstd::prelude::*;

use crate::errors::{MemoryError, MemoryErrorView, VirtualMachineError, VmErrorView};
use crate::integer::Integer;

verus! {

/// An address: a segment and an offset in it.
#[derive(Clone, Copy, Debug, PartialEq, Eq, Structural)]
pub struct Relocatable {
    pub segment_index: usize,
    pub offset: usize,
}

impl Relocatable {
    /// The address at `offset` in segment `segment_index`.
    pub fn new(segment_index: usize, offset: usize) -> (r: Relocatable)
        ensures
            r == (Relocatable { segment_index, offset }),
    {
        Relocatable { segment_index, offset }
    }
}

/// A memory value: an integer or an address.
#[derive(Debug, PartialEq, Eq)]
pub enum MaybeRelocatable {
    Int(Integer),
    RelocatableValue(Relocatable),
}

/// The mathematical form of a [`MaybeRelocatable`].
pub enum MemValue {
    Int(int),
    Ptr(Relocatable),
}

impl View for MaybeRelocatable {
    type V = MemValue;

    open spec fn view(&self) -> MemValue {
        match self {
            MaybeRelocatable::Int(v) => MemValue::Int(v@),
            MaybeRelocatable::RelocatableValue(r) => MemValue::Ptr(*r),
        }
    }
}

impl Clone for MaybeRelocatable {
    fn clone(&self) -> (r: Self)
        ensures
            r@ == self@,
    {
        match self {
            MaybeRelocatable::Int(v) => MaybeRelocatable::Int(v.clone()),
            MaybeRelocatable::RelocatableValue(r) => MaybeRelocatable::RelocatableValue(*r),
        }
    }
}

impl MaybeRelocatable {
    /// Whether two memory values are the same integer or the same address.
    pub fn same_value(&self, other: &MaybeRelocatable) -> (r: bool)
        ensures
            r == (self@ == other@),
    {
        match (self, other) {
            (MaybeRelocatable::Int(a), MaybeRelocatable::Int(b)) => a.equals(b),
            (MaybeRelocatable::RelocatableValue(a), MaybeRelocatable::RelocatableValue(b)) => {
                a.segment_index == b.segment_index && a.offset == b.offset
            },
            _ => false,
        }
    }
}

/// The mathematical form of a memory: segments of cells, each empty or holding a
/// value.
pub type MemoryView = Seq<Seq<Option<MemValue>>>;

/// The mathematical form of one cell.
pub open spec fn cell_view(c: Option<MaybeRelocatable>) -> Option<MemValue> {
    match c {
        Some(v) => Some(v@),
        None => None,
    }
}

/// The value at `offset` in segment `segment`, if the cell exists and is written.
pub open spec fn mem_get(mem: MemoryView, segment: int, offset: int) -> Option<MemValue> {
    if 0 <= segment < mem.len() && 0 <= offset < mem[segment].len() {
        mem[segment][offset]
    } else {
        None
    }
}

/// The segment `s`, extended with empty cells so that it has a cell at `offset`.
pub open spec fn padded_segment(s: Seq<Option<MemValue>>, offset: int) -> Seq<Option<MemValue>> {
    if offset < s.len() {
        s
    } else {
        s + Seq::new((offset + 1 - s.len()) as nat, |k: int| None::<MemValue>)
    }
}

/// Memory after writing `v` at `addr`: a cell is written once; writing the value it
/// already holds changes nothing, writing another value is refused, and so is a write
/// into a segment that is not allocated.
pub open spec fn mem_insert(mem: MemoryView, addr: Relocatable, v: MemValue) -> Result<
    MemoryView,
    MemoryErrorView,
> {
    let seg = addr.segment_index as int;
    let off = addr.offset as int;
    if seg >= mem.len() {
        Err(MemoryErrorView::UnallocatedSegment(addr.segment_index, mem.len() as usize))
    } else {
        match mem_get(mem, seg, off) {
            Some(cur) => if cur == v {
                Ok(mem)
            } else {
                Err(MemoryErrorView::InconsistentMemory(MemValue::Ptr(addr), cur, v))
            },
            None => Ok(mem.update(seg, padded_segment(mem[seg], off).update(off, Some(v)))),
        }
    }
}

/// The memory of the machine: segments of write-once cells.
pub struct Memory {
    data: Vec<Vec<Option<MaybeRelocatable>>>,
}

/// The mathematical form of one segment.
pub open spec fn segment_view(s: Vec<Option<MaybeRelocatable>>) -> Seq<Option<MemValue>> {
    s@.map_values(|c: Option<MaybeRelocatable>| cell_view(c))
}

impl View for Memory {
    type V = MemoryView;

    closed spec fn view(&self) -> MemoryView {
        self.data@.map_values(|s: Vec<Option<MaybeRelocatable>>| segment_view(s))
    }
}

impl Memory {
    /// A memory with no segment.
    pub fn new() -> (r: Memory)
        ensures
            r@ == Seq::<Seq<Option<MemValue>>>::empty(),
    {
        let r = Memory { data: Vec::new() };
        proof {
            assert(r@ =~= Seq::<Seq<Option<MemValue>>>::empty());
        }
        r
    }

    /// The number of cells that segment `segment_index` has so far, where it is
    /// allocated.
    pub fn segment_length(&self, segment_index: usize) -> (r: Option<usize>)
        ensures
            segment_index < self@.len() ==> r is Some && r->Some_0 == self@[segment_index as int].len(),
            segment_index >= self@.len() ==> r is None,
    {
        if segment_index < self.data.len() {
            Some(self.data[segment_index].len())
        } else {
            None
        }
    }

    /// Allocates a new, empty segment and returns the address of its first cell.
    pub fn add_segment(&mut self) -> (r: Relocatable)
        ensures
            final(self)@ == old(self)@.push(Seq::empty()),
            r == (Relocatable { segment_index: old(self)@.len() as usize, offset: 0 }),
    {
        let n = self.data.len();
        let fresh: Vec<Option<MaybeRelocatable>> = Vec::new();
        proof {
            assert(segment_view(fresh) =~= Seq::empty());
        }
        self.data.push(fresh);
        proof {
            assert(self@ =~= old(self)@.push(Seq::empty()));
        }
        Relocatable { segment_index: n, offset: 0 }
    }

    /// The value at `addr`, if that cell exists and is written.
    pub fn get(&self, addr: &Relocatable) -> (r: Option<MaybeRelocatable>)
        ensures
            cell_view(r) == mem_get(self@, addr.segment_index as int, addr.offset as int),
    {
        if addr.segment_index < self.data.len() && addr.offset < self.data[addr.segment_index].len() {
            match &self.data[addr.segment_index][addr.offset] {
                Some(v) => Some(v.clone()),
                None => None,
            }
        } else {
            None
        }
    }

    /// The integer at `addr`; an error that names the address where the cell is
    /// empty, missing or holds an address.
    pub fn get_integer(&self, addr: &Relocatable) -> (r: Result<Integer, VirtualMachineError>)
        ensures
            match mem_get(self@, addr.segment_index as int, addr.offset as int) {
                Some(MemValue::Int(v)) => r is Ok && r->Ok_0@ == v,
                _ => r is Err && r->Err_0@ == VmErrorView::ExpectedInteger(MemValue::Ptr(*addr)),
            },
    {
        match self.get(addr) {
            Some(MaybeRelocatable::Int(v)) => Ok(v),
            _ => Err(VirtualMachineError::ExpectedInteger(MaybeRelocatable::RelocatableValue(*addr))),
        }
    }

    /// The address at `addr`; an error that names the address where the cell is
    /// empty, missing or holds an integer.
    pub fn get_relocatable(&self, addr: &Relocatable) -> (r: Result<
        Relocatable,
        VirtualMachineError,
    >)
        ensures
            match mem_get(self@, addr.segment_index as int, addr.offset as int) {
                Some(MemValue::Ptr(p)) => r == Ok::<Relocatable, VirtualMachineError>(p),
                _ => r is Err && r->Err_0@ == VmErrorView::ExpectedRelocatable(MemValue::Ptr(*addr)),
            },
    {
        match self.get(addr) {
            Some(MaybeRelocatable::RelocatableValue(p)) => Ok(p),
            _ => Err(
                VirtualMachineError::ExpectedRelocatable(MaybeRelocatable::RelocatableValue(*addr)),
            ),
        }
    }

    /// Writes `value` at `addr` (see [`mem_insert`]); the memory is unchanged where the
    /// write is refused.
    pub fn insert(&mut self, addr: &Relocatable, value: &MaybeRelocatable) -> (r: Result<
        (),
        MemoryError,
    >)
        ensures
            match mem_insert(old(self)@, *addr, value@) {
                Ok(m) => r is Ok && final(self)@ == m,
                Err(e) => r is Err && r->Err_0@ == e && final(self)@ == old(self)@,
            },
    {
        let seg = addr.segment_index;
        let off = addr.offset;
        if seg >= self.data.len() {
            return Err(MemoryError::UnallocatedSegment(seg, self.data.len()));
        }
        if off < self.data[seg].len() {
            match &self.data[seg][off] {
                Some(cur) => {
                    if cur.same_value(value) {
                        return Ok(());
                    } else {
                        return Err(
                            MemoryError::InconsistentMemory(
                                MaybeRelocatable::RelocatableValue(*addr),
                                cur.clone(),
                                value.clone(),
                            ),
                        );
                    }
                },
                None => {},
            }
        }
        let ghost old_mem = self@;
        let mut segment: Vec<Option<MaybeRelocatable>> = Vec::new();
        self.data.set_and_swap(seg, &mut segment);
        let ghost old_seg = segment_view(segment);
        proof {
            assert(old_seg == old_mem[seg as int]);
        }
        if off >= segment.len() {
            while segment.len() <= off
                invariant
                    old_seg.len() <= segment.len() <= off + 1,
                    segment_view(segment) == padded_segment(old_seg, off as int).subrange(
                        0,
                        segment.len() as int,
                    ),
                decreases off as int + 1 - segment.len(),
            {
                segment.push(None);
                proof {
                    assert(segment_view(segment) =~= padded_segment(old_seg, off as int).subrange(
                        0,
                        segment.len() as int,
                    ));
                }
            }
            proof {
                assert(segment_view(segment) =~= padded_segment(old_seg, off as int));
            }
        } else {
            proof {
                assert(segment_view(segment) =~= padded_segment(old_seg, off as int));
            }
        }
        let ghost padded = segment_view(segment);
        segment.set(off, Some(value.clone()));
        proof {
            assert(segment_view(segment) =~= padded.update(off as int, Some(value@)));
        }
        self.data.set(seg, segment);
        proof {
            assert(self@ =~= old_mem.update(
                seg as int,
                padded_segment(old_mem[seg as int], off as int).update(off as int, Some(value@)),
            ));
        }
        Ok(())
    }
}

} // verus!
