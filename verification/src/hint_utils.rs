use vstd::prelude::*;

use crate::errors::{VirtualMachineError, VmErrorView};
use crate::integer::Integer;
use crate::memory::{mem_get, mem_insert, MaybeRelocatable, MemValue, MemoryView, Relocatable};
use crate::vm::{ApTracking, HintReference, IdsData, VMProxy, VmView};

verus! {

/// The address that `reference` designates when the frame pointer is `fp`: `offset1`
/// cells from it, in its segment, where that offset is a valid `usize`.
pub open spec fn reference_address(fp: Relocatable, reference: HintReference) -> Option<
    Relocatable,
> {
    let off = fp.offset + reference.offset1;
    if 0 <= off <= usize::MAX {
        Some(Relocatable { segment_index: fp.segment_index, offset: off as usize })
    } else {
        None
    }
}

/// The address of the variable `name` of a hint.
pub open spec fn var_address(vm: VmView, ids: Map<Seq<char>, HintReference>, name: Seq<char>) -> Option<
    Relocatable,
> {
    if ids.contains_key(name) {
        reference_address(vm.fp, ids[name])
    } else {
        None
    }
}

/// A variable can be read at `a`: its segment is not allocated yet (the cell is then
/// found empty), or the cell lies within the cells that the segment has so far.
pub open spec fn readable(mem: MemoryView, a: Relocatable) -> bool {
    a.segment_index >= mem.len() || a.offset < mem[a.segment_index as int].len()
}

/// The address at which the variable `name` is read, or the error for a variable
/// that has none: one past the end of an allocated segment is no such address.
pub open spec fn read_address(vm: VmView, ids: Map<Seq<char>, HintReference>, name: Seq<char>) -> Result<
    Relocatable,
    VmErrorView,
> {
    match var_address(vm, ids, name) {
        Some(a) => if readable(vm.memory, a) {
            Ok(a)
        } else {
            Err(VmErrorView::FailedToGetIds)
        },
        None => Err(VmErrorView::FailedToGetIds),
    }
}

/// The address at which the variable `name` is written, or the error for a variable
/// that has none; a write may go past the end of its segment.
pub open spec fn write_address(vm: VmView, ids: Map<Seq<char>, HintReference>, name: Seq<char>) -> Result<
    Relocatable,
    VmErrorView,
> {
    match var_address(vm, ids, name) {
        Some(a) => Ok(a),
        None => Err(VmErrorView::FailedToGetIds),
    }
}

/// The integer held by the variable `name`.
pub open spec fn read_int(vm: VmView, ids: Map<Seq<char>, HintReference>, name: Seq<char>) -> Result<
    int,
    VmErrorView,
> {
    match read_address(vm, ids, name) {
        Err(e) => Err(e),
        Ok(a) => match mem_get(vm.memory, a.segment_index as int, a.offset as int) {
            Some(MemValue::Int(v)) => Ok(v),
            _ => Err(VmErrorView::ExpectedInteger(MemValue::Ptr(a))),
        },
    }
}

/// The address held by the variable `name`.
pub open spec fn read_ptr(vm: VmView, ids: Map<Seq<char>, HintReference>, name: Seq<char>) -> Result<
    Relocatable,
    VmErrorView,
> {
    match read_address(vm, ids, name) {
        Err(e) => Err(e),
        Ok(a) => match mem_get(vm.memory, a.segment_index as int, a.offset as int) {
            Some(MemValue::Ptr(p)) => Ok(p),
            _ => Err(VmErrorView::ExpectedRelocatable(MemValue::Ptr(a))),
        },
    }
}

/// The memory after writing `v` into the variable `name`.
pub open spec fn write_var(
    vm: VmView,
    ids: Map<Seq<char>, HintReference>,
    name: Seq<char>,
    v: MemValue,
) -> Result<MemoryView, VmErrorView> {
    match write_address(vm, ids, name) {
        Err(e) => Err(e),
        Ok(a) => match mem_insert(vm.memory, a, v) {
            Ok(m) => Ok(m),
            Err(e) => Err(VmErrorView::MemoryError(e)),
        },
    }
}

/// The address that `reference` designates when the frame pointer is `fp`.
pub fn compute_addr_from_reference(reference: &HintReference, fp: &Relocatable) -> (r: Option<
    Relocatable,
>)
    ensures
        r == reference_address(*fp, *reference),
{
    let off: i128 = fp.offset as i128 + reference.offset1 as i128;
    if off < 0 || off > usize::MAX as i128 {
        None
    } else {
        Some(Relocatable { segment_index: fp.segment_index, offset: off as usize })
    }
}

/// The address at which the variable `name` of the hint is written.
pub fn get_address_from_var_name(
    name: &str,
    vm_proxy: &VMProxy,
    ids_data: &IdsData,
    _ap_tracking: &ApTracking,
) -> (r: Result<Relocatable, VirtualMachineError>)
    ensures
        match write_address(vm_proxy@, ids_data@, name@) {
            Ok(a) => r == Ok::<Relocatable, VirtualMachineError>(a),
            Err(e) => r is Err && r->Err_0@ == e,
        },
{
    match ids_data.get(name) {
        Some(reference) => match compute_addr_from_reference(&reference, &vm_proxy.run_context.fp) {
            Some(a) => Ok(a),
            None => Err(VirtualMachineError::FailedToGetIds),
        },
        None => Err(VirtualMachineError::FailedToGetIds),
    }
}

/// The address at which the variable `name` of the hint is read.
pub fn get_relocatable_from_var_name(
    name: &str,
    vm_proxy: &VMProxy,
    ids_data: &IdsData,
    ap_tracking: &ApTracking,
) -> (r: Result<Relocatable, VirtualMachineError>)
    ensures
        match read_address(vm_proxy@, ids_data@, name@) {
            Ok(a) => r == Ok::<Relocatable, VirtualMachineError>(a),
            Err(e) => r is Err && r->Err_0@ == e,
        },
{
    let a = get_address_from_var_name(name, vm_proxy, ids_data, ap_tracking)?;
    match vm_proxy.memory.segment_length(a.segment_index) {
        Some(len) => {
            if a.offset < len {
                Ok(a)
            } else {
                Err(VirtualMachineError::FailedToGetIds)
            }
        },
        None => Ok(a),
    }
}

/// The integer held by the variable `name` of the hint.
pub fn get_integer_from_var_name(
    name: &str,
    vm_proxy: &VMProxy,
    ids_data: &IdsData,
    ap_tracking: &ApTracking,
) -> (r: Result<Integer, VirtualMachineError>)
    ensures
        match read_int(vm_proxy@, ids_data@, name@) {
            Ok(v) => r is Ok && r->Ok_0@ == v,
            Err(e) => r is Err && r->Err_0@ == e,
        },
{
    let a = get_relocatable_from_var_name(name, vm_proxy, ids_data, ap_tracking)?;
    vm_proxy.memory.get_integer(&a)
}

/// The address held by the variable `name` of the hint.
pub fn get_ptr_from_var_name(
    name: &str,
    vm_proxy: &VMProxy,
    ids_data: &IdsData,
    ap_tracking: &ApTracking,
) -> (r: Result<Relocatable, VirtualMachineError>)
    ensures
        match read_ptr(vm_proxy@, ids_data@, name@) {
            Ok(p) => r == Ok::<Relocatable, VirtualMachineError>(p),
            Err(e) => r is Err && r->Err_0@ == e,
        },
{
    let a = get_relocatable_from_var_name(name, vm_proxy, ids_data, ap_tracking)?;
    vm_proxy.memory.get_relocatable(&a)
}

/// Writes `value` into the variable `name` of the hint; nothing changes where the
/// write fails.
pub fn insert_value_from_var_name(
    name: &str,
    value: MaybeRelocatable,
    vm_proxy: &mut VMProxy,
    ids_data: &IdsData,
    ap_tracking: &ApTracking,
) -> (r: Result<(), VirtualMachineError>)
    ensures
        final(vm_proxy)@.fp == old(vm_proxy)@.fp,
        match write_var(old(vm_proxy)@, ids_data@, name@, value@) {
            Ok(m) => r is Ok && final(vm_proxy)@.memory == m,
            Err(e) => r is Err && r->Err_0@ == e && final(vm_proxy)@ == old(vm_proxy)@,
        },
{
    let a = get_address_from_var_name(name, vm_proxy, ids_data, ap_tracking)?;
    match vm_proxy.memory.insert(&a, &value) {
        Ok(()) => Ok(()),
        Err(e) => Err(VirtualMachineError::MemoryError(e)),
    }
}

/// `v` as a `usize`, where it lies between 0 and `usize::MAX`.
pub fn bigint_to_usize(v: &Integer) -> (r: Result<usize, VirtualMachineError>)
    ensures
        0 <= v@ <= usize::MAX ==> r == Ok::<usize, VirtualMachineError>(v@ as usize),
        !(0 <= v@ <= usize::MAX) ==> r is Err && r->Err_0@ == VmErrorView::BigintToUsizeFail,
{
    match v.to_usize() {
        Some(u) => Ok(u),
        None => Err(VirtualMachineError::BigintToUsizeFail),
    }
}

} // verus!
