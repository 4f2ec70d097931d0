use vstd::prelude::*;

use crate::integer::Integer;
use crate::memory::{MaybeRelocatable, MemValue};

verus! {

/// Why a write to memory was refused.
#[derive(Debug, PartialEq, Eq)]
pub enum MemoryError {
    /// The segment (first field) is not allocated; the second field is the number of
    /// segments.
    UnallocatedSegment(usize, usize),
    /// The cell at the address (first field) already holds another value (second
    /// field) than the one written (third field).
    InconsistentMemory(MaybeRelocatable, MaybeRelocatable, MaybeRelocatable),
}

/// The mathematical form of a [`MemoryError`].
pub enum MemoryErrorView {
    UnallocatedSegment(usize, usize),
    InconsistentMemory(MemValue, MemValue, MemValue),
}

impl View for MemoryError {
    type V = MemoryErrorView;

    open spec fn view(&self) -> MemoryErrorView {
        match self {
            MemoryError::UnallocatedSegment(s, n) => MemoryErrorView::UnallocatedSegment(*s, *n),
            MemoryError::InconsistentMemory(a, b, c) => MemoryErrorView::InconsistentMemory(
                a@,
                b@,
                c@,
            ),
        }
    }
}

/// The errors that the hints report.
#[derive(Debug, PartialEq, Eq)]
pub enum VirtualMachineError {
    /// A value lies outside the range that the hint accepts.
    ValueOutOfRange(Integer),
    /// A memory cell that the hint reads holds no integer.
    KeyNotFound,
    /// The index given in the scope (first field) points at a key (third field)
    /// other than the one looked for (second field).
    InvalidIndex(Integer, Integer, Integer),
    /// The number of elements (second field) exceeds the maximum set in the scope
    /// (first field).
    FindElemMaxSize(Integer, Integer),
    /// The number of elements does not fit the loop counter.
    OffsetExceeded(Integer),
    /// No element of the array holds the key.
    NoValueForKey(Integer),
    /// The address of a variable of the hint could not be computed.
    FailedToGetIds,
    /// The cell at this address holds no integer.
    ExpectedInteger(MaybeRelocatable),
    /// The cell at this address holds no address.
    ExpectedRelocatable(MaybeRelocatable),
    /// An integer does not fit a `usize`.
    BigintToUsizeFail,
    /// The scope has no integer under this name.
    VariableNotInScope(String),
    /// A write to memory was refused.
    MemoryError(MemoryError),
}

/// The mathematical form of a [`VirtualMachineError`].
pub enum VmErrorView {
    ValueOutOfRange(int),
    KeyNotFound,
    InvalidIndex(int, int, int),
    FindElemMaxSize(int, int),
    OffsetExceeded(int),
    NoValueForKey(int),
    FailedToGetIds,
    ExpectedInteger(MemValue),
    ExpectedRelocatable(MemValue),
    BigintToUsizeFail,
    VariableNotInScope(Seq<char>),
    MemoryError(MemoryErrorView),
}

impl View for VirtualMachineError {
    type V = VmErrorView;

    open spec fn view(&self) -> VmErrorView {
        match self {
            VirtualMachineError::ValueOutOfRange(v) => VmErrorView::ValueOutOfRange(v@),
            VirtualMachineError::KeyNotFound => VmErrorView::KeyNotFound,
            VirtualMachineError::InvalidIndex(a, b, c) => VmErrorView::InvalidIndex(a@, b@, c@),
            VirtualMachineError::FindElemMaxSize(a, b) => VmErrorView::FindElemMaxSize(a@, b@),
            VirtualMachineError::OffsetExceeded(v) => VmErrorView::OffsetExceeded(v@),
            VirtualMachineError::NoValueForKey(v) => VmErrorView::NoValueForKey(v@),
            VirtualMachineError::FailedToGetIds => VmErrorView::FailedToGetIds,
            VirtualMachineError::ExpectedInteger(v) => VmErrorView::ExpectedInteger(v@),
            VirtualMachineError::ExpectedRelocatable(v) => VmErrorView::ExpectedRelocatable(v@),
            VirtualMachineError::BigintToUsizeFail => VmErrorView::BigintToUsizeFail,
            VirtualMachineError::VariableNotInScope(s) => VmErrorView::VariableNotInScope(s@),
            VirtualMachineError::MemoryError(e) => VmErrorView::MemoryError(e@),
        }
    }
}

} // verus!
