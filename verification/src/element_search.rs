use vstd::prelude::*;

use crate::errors::{VirtualMachineError, VmErrorView};
use crate::hint_utils::{
    bigint_to_usize, get_integer_from_var_name, get_ptr_from_var_name,
    get_relocatable_from_var_name, insert_value_from_var_name, read_address, read_int, read_ptr,
    write_var,
};
use crate::integer::Integer;
use crate::memory::{mem_get, MaybeRelocatable, MemValue, Memory, MemoryView, Relocatable};
use crate::vm::{ApTracking, ExecutionScopesProxy, HintReference, IdsData, VMProxy, VmView};

verus! {

// ---------------------------------------------------------------------------------
// The array that the hints search
// ---------------------------------------------------------------------------------
/// The offset of element `i` of an array that starts at `base` and whose elements
/// are `elm_size` cells long.
pub open spec fn element_offset(base: Relocatable, elm_size: int, i: int) -> int {
    base.offset + elm_size * i
}

/// The address of the first cell (the key) of element `i`.
pub open spec fn element_address(base: Relocatable, elm_size: int, i: int) -> Relocatable {
    Relocatable { segment_index: base.segment_index, offset: element_offset(base, elm_size, i) as usize }
}

/// The first cell (the key) of element `i`.
pub open spec fn element_key(mem: MemoryView, base: Relocatable, elm_size: int, i: int) -> Option<
    MemValue,
> {
    mem_get(mem, base.segment_index as int, element_offset(base, elm_size, i))
}

/// The least `i` in `k..n` at which `p` holds, or `n` where there is none.
pub open spec fn first_index_from(p: spec_fn(int) -> bool, n: int, k: int) -> int
    decreases n - k,
{
    if k >= n {
        n
    } else if p(k) {
        k
    } else {
        first_index_from(p, n, k + 1)
    }
}

/// The least `i` in `0..n` at which `p` holds, or `n` where there is none.
pub open spec fn first_index(p: spec_fn(int) -> bool, n: int) -> int {
    first_index_from(p, n, 0)
}

/// A linear scan for `key` stops at an element whose key cell holds `key` or holds
/// no integer.
pub open spec fn stops_find(mem: MemoryView, base: Relocatable, elm_size: int, key: int) -> spec_fn(
    int,
) -> bool {
    |i: int|
        match element_key(mem, base, elm_size, i) {
            Some(MemValue::Int(v)) => v == key,
            _ => true,
        }
}

/// A scan for the lower bound of `key` stops at an element whose key cell holds a
/// value at least `key` or holds no integer.
pub open spec fn stops_lower(mem: MemoryView, base: Relocatable, elm_size: int, key: int) -> spec_fn(
    int,
) -> bool {
    |i: int|
        match element_key(mem, base, elm_size, i) {
            Some(MemValue::Int(v)) => v >= key,
            _ => true,
        }
}

/// `first_index_from` is the least index from `k` at which `p` holds, or `n`.
pub proof fn lemma_first_index_from(p: spec_fn(int) -> bool, n: int, k: int)
    requires
        0 <= k <= n,
    ensures
        k <= first_index_from(p, n, k) <= n,
        forall|j: int| k <= j < first_index_from(p, n, k) ==> !#[trigger] p(j),
        first_index_from(p, n, k) < n ==> p(first_index_from(p, n, k)),
    decreases n - k,
{
    if k < n && !p(k) {
        lemma_first_index_from(p, n, k + 1);
    }
}

/// `first_index(p, n)` is the least index below `n` at which `p` holds, or `n` where
/// `p` holds at none of them.
pub proof fn lemma_first_index(p: spec_fn(int) -> bool, n: int)
    requires
        0 <= n,
    ensures
        0 <= first_index(p, n) <= n,
        forall|j: int| 0 <= j < first_index(p, n) ==> !#[trigger] p(j),
        first_index(p, n) < n ==> p(first_index(p, n)),
{
    lemma_first_index_from(p, n, 0);
}

/// Element offsets grow with the index.
pub proof fn lemma_element_offset_monotone(base: Relocatable, elm_size: int, i: int, j: int)
    requires
        0 <= elm_size,
        i <= j,
    ensures
        element_offset(base, elm_size, i) <= element_offset(base, elm_size, j),
        element_offset(base, elm_size, i + 1) == element_offset(base, elm_size, i) + elm_size,
{
    assert(elm_size * i <= elm_size * j) by (nonlinear_arith)
        requires
            0 <= elm_size,
            i <= j,
    ;
    assert(elm_size * (i + 1) == elm_size * i + elm_size) by (nonlinear_arith);
}

/// The outcome of a linear scan of `n` elements for `key`: the index of the first
/// element that holds it; `KeyNotFound` where an element before it, or that one, holds
/// no integer; `NoValueForKey` where no element holds it.
pub open spec fn find_scan(mem: MemoryView, base: Relocatable, elm_size: int, n: int, key: int) -> Result<
    int,
    VmErrorView,
> {
    let s = first_index(stops_find(mem, base, elm_size, key), n);
    if s >= n {
        Err(VmErrorView::NoValueForKey(key))
    } else {
        match element_key(mem, base, elm_size, s) {
            Some(MemValue::Int(_)) => Ok(s),
            _ => Err(VmErrorView::KeyNotFound),
        }
    }
}

/// The outcome of a scan of `n` elements for the lower bound of `key`: the index of the
/// first element whose key is at least `key`, or `n` where there is none; an error that
/// names the address of the first element before it, or that one, that holds no
/// integer.
pub open spec fn lower_scan(mem: MemoryView, base: Relocatable, elm_size: int, n: int, key: int) -> Result<
    int,
    VmErrorView,
> {
    let s = first_index(stops_lower(mem, base, elm_size, key), n);
    if s >= n {
        Ok(n)
    } else {
        match element_key(mem, base, elm_size, s) {
            Some(MemValue::Int(_)) => Ok(s),
            _ => Err(
                VmErrorView::ExpectedInteger(MemValue::Ptr(element_address(base, elm_size, s))),
            ),
        }
    }
}

/// Scans the `n_elms` elements at `base` for `key`; see [`find_scan`].
pub fn scan_for_key(memory: &Memory, base: Relocatable, elm_size: usize, n_elms: i32, key: &Integer) -> (r:
    Result<i32, VirtualMachineError>)
    requires
        0 <= n_elms,
        0 < n_elms ==> element_offset(
            base,
            elm_size as int,
            if first_index(stops_find(memory@, base, elm_size as int, key@), n_elms as int) < n_elms {
                first_index(stops_find(memory@, base, elm_size as int, key@), n_elms as int)
            } else {
                n_elms - 1
            },
        ) <= usize::MAX,
    ensures
        match find_scan(memory@, base, elm_size as int, n_elms as int, key@) {
            Ok(i) => 0 <= i < n_elms && r == Ok::<i32, VirtualMachineError>(i as i32),
            Err(e) => r is Err && r->Err_0@ == e,
        },
{
    let ghost p = stops_find(memory@, base, elm_size as int, key@);
    let ghost s = first_index(p, n_elms as int);
    proof {
        lemma_first_index(p, n_elms as int);
    }
    let mut i: i32 = 0;
    while i < n_elms
        invariant
            0 <= i <= n_elms,
            p == stops_find(memory@, base, elm_size as int, key@),
            s == first_index(p, n_elms as int),
            0 <= s <= n_elms,
            forall|j: int| 0 <= j < s ==> !#[trigger] p(j),
            s < n_elms ==> p(s),
            i <= s,
            0 < n_elms ==> element_offset(
                base,
                elm_size as int,
                if s < n_elms {
                    s
                } else {
                    n_elms - 1
                },
            ) <= usize::MAX,
        decreases n_elms - i,
    {
        proof {
            lemma_element_offset_monotone(
                base,
                elm_size as int,
                i as int,
                if s < n_elms {
                    s
                } else {
                    n_elms - 1
                },
            );
            assert(elm_size as int * i as int >= 0) by (nonlinear_arith)
                requires
                    i >= 0,
            ;
        }
        let step: usize = elm_size * (i as usize);
        let addr = Relocatable { segment_index: base.segment_index, offset: base.offset + step };
        assert(addr.offset == element_offset(base, elm_size as int, i as int));
        match memory.get_integer(&addr) {
            Ok(iter_key) => {
                if iter_key.equals(key) {
                    assert(p(i as int));
                    return Ok(i);
                }
                assert(!p(i as int));
            },
            Err(_) => {
                assert(p(i as int));
                return Err(VirtualMachineError::KeyNotFound);
            },
        }
        i = i + 1;
    }
    Err(VirtualMachineError::NoValueForKey(key.clone()))
}

/// Scans the `n_elms` elements at `base` for the lower bound of `key`; see
/// [`lower_scan`].
pub fn scan_lower_bound(
    memory: &Memory,
    base: Relocatable,
    elm_size: usize,
    n_elms: usize,
    key: &Integer,
) -> (r: Result<usize, VirtualMachineError>)
    requires
        element_offset(
            base,
            elm_size as int,
            first_index(stops_lower(memory@, base, elm_size as int, key@), n_elms as int),
        ) <= usize::MAX,
    ensures
        match lower_scan(memory@, base, elm_size as int, n_elms as int, key@) {
            Ok(i) => 0 <= i <= n_elms && r == Ok::<usize, VirtualMachineError>(i as usize),
            Err(e) => r is Err && r->Err_0@ == e,
        },
{
    let ghost p = stops_lower(memory@, base, elm_size as int, key@);
    let ghost s = first_index(p, n_elms as int);
    proof {
        lemma_first_index(p, n_elms as int);
    }
    let mut array_iter = base;
    let mut i: usize = 0;
    while i < n_elms
        invariant
            0 <= i <= n_elms,
            p == stops_lower(memory@, base, elm_size as int, key@),
            s == first_index(p, n_elms as int),
            0 <= s <= n_elms,
            forall|j: int| 0 <= j < s ==> !#[trigger] p(j),
            s < n_elms ==> p(s),
            i <= s,
            element_offset(base, elm_size as int, s) <= usize::MAX,
            array_iter == element_address(base, elm_size as int, i as int),
            element_offset(base, elm_size as int, i as int) <= usize::MAX,
        decreases n_elms - i,
    {
        let value = match memory.get_integer(&array_iter) {
            Ok(v) => v,
            Err(e) => {
                assert(p(i as int));
                return Err(e);
            },
        };
        if value.greater_or_equal(key) {
            assert(p(i as int));
            return Ok(i);
        }
        proof {
            assert(!p(i as int));
            lemma_element_offset_monotone(base, elm_size as int, i as int + 1, s);
            lemma_element_offset_monotone(base, elm_size as int, i as int, s);
        }
        array_iter.offset = array_iter.offset + elm_size;
        i = i + 1;
    }
    Ok(n_elms)
}

// ---------------------------------------------------------------------------------
// The hints
// ---------------------------------------------------------------------------------
/// What the `find_element` hint decides with an index from the scope, once it has
/// the key, the element size and the start of the array: the element there must hold
/// `key`.
pub open spec fn find_by_index(mem: MemoryView, base: Relocatable, elm_size: int, key: int, index: int) -> Result<
    (int, bool),
    VmErrorView,
> {
    if !(0 <= index <= usize::MAX) {
        Err(VmErrorView::BigintToUsizeFail)
    } else {
        match element_key(mem, base, elm_size, index) {
            Some(MemValue::Int(found)) => if found == key {
                Ok((index, true))
            } else {
                Err(VmErrorView::InvalidIndex(index, key, found))
            },
            _ => Err(VmErrorView::KeyNotFound),
        }
    }
}

/// What the `find_element` hint decides without an index in the scope, once it has
/// the key, the element size, the number of elements and the start of the array:
/// `n_elms` must not be negative, nor above `find_element_max_size` where the scope
/// has it, nor above `i32::MAX`, and the array is scanned for `key` (see
/// [`find_scan`]).
pub open spec fn find_by_scan(
    mem: MemoryView,
    scopes: Map<Seq<char>, int>,
    base: Relocatable,
    elm_size: int,
    n_elms: int,
    key: int,
) -> Result<(int, bool), VmErrorView> {
    if n_elms < 0 {
        Err(VmErrorView::ValueOutOfRange(n_elms))
    } else if scopes.contains_key("find_element_max_size"@) && n_elms
        > scopes["find_element_max_size"@] {
        Err(VmErrorView::FindElemMaxSize(scopes["find_element_max_size"@], n_elms))
    } else if n_elms > i32::MAX {
        Err(VmErrorView::OffsetExceeded(n_elms))
    } else {
        match find_scan(mem, base, elm_size, n_elms, key) {
            Ok(i) => Ok((i, false)),
            Err(e) => Err(e),
        }
    }
}

/// What the `find_element` hint decides before it writes: the index to write and
/// whether it came from the scope variable `find_element_index`, or the error it
/// reports. It reads the variables `key` and `elm_size`; then, where the scope holds
/// no index, `n_elms`; then `array_ptr`. It then checks that `elm_size` is a positive
/// `usize` and goes on with [`find_by_index`] or [`find_by_scan`].
pub open spec fn find_element_outcome(
    vm: VmView,
    scopes: Map<Seq<char>, int>,
    ids: Map<Seq<char>, HintReference>,
) -> Result<(int, bool), VmErrorView> {
    match read_int(vm, ids, "key"@) {
        Err(e) => Err(e),
        Ok(key) => match read_int(vm, ids, "elm_size"@) {
            Err(e) => Err(e),
            Ok(elm_size) => if scopes.contains_key("find_element_index"@) {
                match read_ptr(vm, ids, "array_ptr"@) {
                    Err(e) => Err(e),
                    Ok(base) => if !(1 <= elm_size <= usize::MAX) {
                        Err(VmErrorView::ValueOutOfRange(elm_size))
                    } else {
                        find_by_index(vm.memory, base, elm_size, key, scopes["find_element_index"@])
                    },
                }
            } else {
                match read_int(vm, ids, "n_elms"@) {
                    Err(e) => Err(e),
                    Ok(n_elms) => match read_ptr(vm, ids, "array_ptr"@) {
                        Err(e) => Err(e),
                        Ok(base) => if !(1 <= elm_size <= usize::MAX) {
                            Err(VmErrorView::ValueOutOfRange(elm_size))
                        } else {
                            find_by_scan(vm.memory, scopes, base, elm_size, n_elms, key)
                        },
                    },
                }
            },
        },
    }
}

/// The addresses that the `find_element` hint computes fit a `usize`: the element at
/// the index from the scope, or the elements that the scan reads.
pub open spec fn find_element_fits(
    vm: VmView,
    scopes: Map<Seq<char>, int>,
    ids: Map<Seq<char>, HintReference>,
) -> bool {
    let key = read_int(vm, ids, "key"@);
    let elm_size = read_int(vm, ids, "elm_size"@);
    let base = read_ptr(vm, ids, "array_ptr"@);
    (key is Ok && elm_size is Ok && base is Ok && 1 <= elm_size->Ok_0 <= usize::MAX) ==> if scopes.contains_key(
        "find_element_index"@,
    ) {
        let index = scopes["find_element_index"@];
        0 <= index <= usize::MAX ==> element_offset(base->Ok_0, elm_size->Ok_0, index)
            <= usize::MAX
    } else {
        let n_elms = read_int(vm, ids, "n_elms"@);
        let n = n_elms->Ok_0;
        let s = first_index(stops_find(vm.memory, base->Ok_0, elm_size->Ok_0, key->Ok_0), n);
        (n_elms is Ok && 0 < n <= i32::MAX && !(scopes.contains_key("find_element_max_size"@)
            && n > scopes["find_element_max_size"@])) ==> element_offset(
            base->Ok_0,
            elm_size->Ok_0,
            if s < n {
                s
            } else {
                n - 1
            },
        ) <= usize::MAX
    }
}

/// The lower bound of `key` among the `n` elements at `base`, where the key is read
/// only once the first element has been read: 0 for an empty array (the key is not
/// read); an error that names the first element's address where it holds no integer;
/// the error of reading `key`; or the outcome of [`lower_scan`].
pub open spec fn lower_bound_of_key(
    vm: VmView,
    ids: Map<Seq<char>, HintReference>,
    base: Relocatable,
    elm_size: int,
    n: int,
) -> Result<int, VmErrorView> {
    if n == 0 {
        Ok(0)
    } else {
        match element_key(vm.memory, base, elm_size, 0) {
            Some(MemValue::Int(_)) => match read_int(vm, ids, "key"@) {
                Err(e) => Err(e),
                Ok(key) => lower_scan(vm.memory, base, elm_size, n, key),
            },
            _ => Err(
                VmErrorView::ExpectedInteger(MemValue::Ptr(element_address(base, elm_size, 0))),
            ),
        }
    }
}

/// What the `search_sorted_lower` hint decides before it writes: the index to write,
/// or the error it reports. It reads the address of `array_ptr`, then `elm_size`,
/// which must be positive, then `n_elms`, which must not be negative nor above
/// `find_element_max_size` where the scope has it; `array_ptr` must hold an address,
/// and both sizes must fit a `usize`. The lower bound of `key` is then taken (see
/// [`lower_bound_of_key`]).
pub open spec fn search_sorted_lower_outcome(
    vm: VmView,
    scopes: Map<Seq<char>, int>,
    ids: Map<Seq<char>, HintReference>,
) -> Result<int, VmErrorView> {
    match read_address(vm, ids, "array_ptr"@) {
        Err(e) => Err(e),
        Ok(ptr_addr) => match read_int(vm, ids, "elm_size"@) {
            Err(e) => Err(e),
            Ok(elm_size) => if elm_size <= 0 {
                Err(VmErrorView::ValueOutOfRange(elm_size))
            } else {
                match read_int(vm, ids, "n_elms"@) {
                    Err(e) => Err(e),
                    Ok(n_elms) => if n_elms < 0 {
                        Err(VmErrorView::ValueOutOfRange(n_elms))
                    } else if scopes.contains_key("find_element_max_size"@) && n_elms
                        > scopes["find_element_max_size"@] {
                        Err(VmErrorView::FindElemMaxSize(scopes["find_element_max_size"@], n_elms))
                    } else {
                        match mem_get(vm.memory, ptr_addr.segment_index as int, ptr_addr.offset as int) {
                            Some(MemValue::Ptr(base)) => if n_elms > usize::MAX || elm_size
                                > usize::MAX {
                                Err(VmErrorView::KeyNotFound)
                            } else {
                                lower_bound_of_key(vm, ids, base, elm_size, n_elms)
                            },
                            _ => Err(VmErrorView::ExpectedRelocatable(MemValue::Ptr(ptr_addr))),
                        }
                    },
                }
            },
        },
    }
}

/// The addresses that the `search_sorted_lower` hint computes fit a `usize`: those of
/// the elements it reads, and the one after the last of them.
pub open spec fn search_sorted_lower_fits(
    vm: VmView,
    scopes: Map<Seq<char>, int>,
    ids: Map<Seq<char>, HintReference>,
) -> bool {
    let ptr_addr = read_address(vm, ids, "array_ptr"@);
    let elm_size = read_int(vm, ids, "elm_size"@);
    let n_elms = read_int(vm, ids, "n_elms"@);
    let key = read_int(vm, ids, "key"@);
    (ptr_addr is Ok && elm_size is Ok && n_elms is Ok && key is Ok && 0 < elm_size->Ok_0
        <= usize::MAX && 0 < n_elms->Ok_0 <= usize::MAX && !(scopes.contains_key(
        "find_element_max_size"@,
    ) && n_elms->Ok_0 > scopes["find_element_max_size"@])) ==> match mem_get(
        vm.memory,
        ptr_addr->Ok_0.segment_index as int,
        ptr_addr->Ok_0.offset as int,
    ) {
        Some(MemValue::Ptr(base)) => element_offset(
            base,
            elm_size->Ok_0,
            first_index(stops_lower(vm.memory, base, elm_size->Ok_0, key->Ok_0), n_elms->Ok_0),
        ) <= usize::MAX,
        _ => true,
    }
}

/// The decision of the `find_element` hint; see [`find_element_outcome`].
fn find_element_decide(
    vm_proxy: &VMProxy,
    exec_scopes_proxy: &ExecutionScopesProxy,
    ids_data: &IdsData,
    ap_tracking: &ApTracking,
) -> (r: Result<(Integer, bool), VirtualMachineError>)
    requires
        find_element_fits(vm_proxy@, exec_scopes_proxy@, ids_data@),
    ensures
        match find_element_outcome(vm_proxy@, exec_scopes_proxy@, ids_data@) {
            Ok((i, by_index)) => r is Ok && r->Ok_0.0@ == i && r->Ok_0.1 == by_index,
            Err(e) => r is Err && r->Err_0@ == e,
        },
{
    let key = get_integer_from_var_name("key", vm_proxy, ids_data, ap_tracking)?;
    let elm_size_bigint = get_integer_from_var_name("elm_size", vm_proxy, ids_data, ap_tracking)?;
    match exec_scopes_proxy.get_int("find_element_index") {
        Ok(find_element_index_value) => {
            let array_start = get_ptr_from_var_name("array_ptr", vm_proxy, ids_data, ap_tracking)?;
            let elm_size = positive_elm_size(elm_size_bigint)?;
            let index = bigint_to_usize(&find_element_index_value)?;
            proof {
                assert(elm_size as int * index as int >= 0) by (nonlinear_arith);
            }
            let addr = Relocatable {
                segment_index: array_start.segment_index,
                offset: array_start.offset + elm_size * index,
            };
            let found_key = match vm_proxy.memory.get_integer(&addr) {
                Ok(v) => v,
                Err(_) => {
                    return Err(VirtualMachineError::KeyNotFound);
                },
            };
            if !found_key.equals(&key) {
                return Err(
                    VirtualMachineError::InvalidIndex(find_element_index_value, key, found_key),
                );
            }
            Ok((find_element_index_value, true))
        },
        Err(_) => {
            let n_elms = get_integer_from_var_name("n_elms", vm_proxy, ids_data, ap_tracking)?;
            let array_start = get_ptr_from_var_name("array_ptr", vm_proxy, ids_data, ap_tracking)?;
            let elm_size = positive_elm_size(elm_size_bigint)?;
            if n_elms.is_negative() {
                return Err(VirtualMachineError::ValueOutOfRange(n_elms));
            }
            match exec_scopes_proxy.get_int("find_element_max_size") {
                Ok(find_element_max_size) => {
                    if n_elms.greater_than(&find_element_max_size) {
                        return Err(
                            VirtualMachineError::FindElemMaxSize(find_element_max_size, n_elms),
                        );
                    }
                },
                Err(_) => {},
            }
            let n_elms_iter = match n_elms.to_i32() {
                Some(n) => n,
                None => {
                    return Err(VirtualMachineError::OffsetExceeded(n_elms));
                },
            };
            let i = scan_for_key(&vm_proxy.memory, array_start, elm_size, n_elms_iter, &key)?;
            Ok((Integer::from_i32(i), false))
        },
    }
}

/// The element size as a `usize`, where it is a positive one; `ValueOutOfRange` of it
/// otherwise.
pub fn positive_elm_size(elm_size: Integer) -> (r: Result<usize, VirtualMachineError>)
    ensures
        1 <= elm_size@ <= usize::MAX ==> r == Ok::<usize, VirtualMachineError>(elm_size@ as usize),
        !(1 <= elm_size@ <= usize::MAX) ==> r is Err && r->Err_0@ == VmErrorView::ValueOutOfRange(
            elm_size@,
        ),
{
    match elm_size.to_usize() {
        Some(e) => {
            if e == 0 {
                Err(VirtualMachineError::ValueOutOfRange(elm_size))
            } else {
                Ok(e)
            }
        },
        None => Err(VirtualMachineError::ValueOutOfRange(elm_size)),
    }
}

/// The `find_element` hint: finds the element of the array at `array_ptr` (`n_elms`
/// elements of `elm_size` cells) whose first cell holds `key`, and writes its index
/// into `index`. Where the scope holds `find_element_index`, that index is checked
/// instead of searched for, and the variable is removed from the scope once written.
/// Nothing changes where an error is reported. [`find_element_fits_check`] tells
/// whether the precondition holds.
pub fn find_element(
    vm_proxy: &mut VMProxy,
    exec_scopes_proxy: &mut ExecutionScopesProxy,
    ids_data: &IdsData,
    ap_tracking: &ApTracking,
) -> (r: Result<(), VirtualMachineError>)
    requires
        find_element_fits(old(vm_proxy)@, old(exec_scopes_proxy)@, ids_data@),
    ensures
        final(vm_proxy)@.fp == old(vm_proxy)@.fp,
        match find_element_outcome(old(vm_proxy)@, old(exec_scopes_proxy)@, ids_data@) {
            Err(e) => r is Err && r->Err_0@ == e && final(vm_proxy)@ == old(vm_proxy)@
                && final(exec_scopes_proxy)@ == old(exec_scopes_proxy)@,
            Ok((index, by_index)) => match write_var(
                old(vm_proxy)@,
                ids_data@,
                "index"@,
                MemValue::Int(index),
            ) {
                Err(e) => r is Err && r->Err_0@ == e && final(vm_proxy)@ == old(vm_proxy)@
                    && final(exec_scopes_proxy)@ == old(exec_scopes_proxy)@,
                Ok(m) => r is Ok && final(vm_proxy)@.memory == m && final(exec_scopes_proxy)@ == (
                if by_index {
                    old(exec_scopes_proxy)@.remove("find_element_index"@)
                } else {
                    old(exec_scopes_proxy)@
                }),
            },
        },
{
    let (index, by_index) = find_element_decide(vm_proxy, exec_scopes_proxy, ids_data, ap_tracking)?;
    insert_value_from_var_name("index", MaybeRelocatable::Int(index), vm_proxy, ids_data, ap_tracking)?;
    if by_index {
        exec_scopes_proxy.delete_variable("find_element_index");
    }
    Ok(())
}

/// The decision of the `search_sorted_lower` hint; see [`search_sorted_lower_outcome`].
fn search_sorted_lower_decide(
    vm_proxy: &VMProxy,
    exec_scopes_proxy: &ExecutionScopesProxy,
    ids_data: &IdsData,
    ap_tracking: &ApTracking,
) -> (r: Result<Integer, VirtualMachineError>)
    requires
        search_sorted_lower_fits(vm_proxy@, exec_scopes_proxy@, ids_data@),
    ensures
        match search_sorted_lower_outcome(vm_proxy@, exec_scopes_proxy@, ids_data@) {
            Ok(i) => r is Ok && r->Ok_0@ == i,
            Err(e) => r is Err && r->Err_0@ == e,
        },
{
    let rel_array_ptr = get_relocatable_from_var_name("array_ptr", vm_proxy, ids_data, ap_tracking)?;
    let elm_size = get_integer_from_var_name("elm_size", vm_proxy, ids_data, ap_tracking)?;
    if !elm_size.is_positive() {
        return Err(VirtualMachineError::ValueOutOfRange(elm_size));
    }
    let n_elms = get_integer_from_var_name("n_elms", vm_proxy, ids_data, ap_tracking)?;
    if n_elms.is_negative() {
        return Err(VirtualMachineError::ValueOutOfRange(n_elms));
    }
    match exec_scopes_proxy.get_int("find_element_max_size") {
        Ok(max_size) => {
            if n_elms.greater_than(&max_size) {
                return Err(VirtualMachineError::FindElemMaxSize(max_size, n_elms));
            }
        },
        Err(_) => {},
    }
    let array_iter = vm_proxy.memory.get_relocatable(&rel_array_ptr)?;
    let n_elms_usize = match n_elms.to_usize() {
        Some(n) => n,
        None => {
            return Err(VirtualMachineError::KeyNotFound);
        },
    };
    let elm_size_usize = match elm_size.to_usize() {
        Some(e) => e,
        None => {
            return Err(VirtualMachineError::KeyNotFound);
        },
    };
    if n_elms_usize == 0 {
        return Ok(Integer::from_usize(0));
    }
    // The first element is read before the key.
    let _first = vm_proxy.memory.get_integer(&array_iter)?;
    let key = get_integer_from_var_name("key", vm_proxy, ids_data, ap_tracking)?;
    let index = scan_lower_bound(&vm_proxy.memory, array_iter, elm_size_usize, n_elms_usize, &key)?;
    Ok(Integer::from_usize(index))
}

/// The `search_sorted_lower` hint: writes into `index` the index of the first element
/// of the array at `array_ptr` (`n_elms` elements of `elm_size` cells) whose first
/// cell holds a value at least `key`, or `n_elms` where there is none. Nothing changes
/// where an error is reported; the scope is only read. [`search_sorted_lower_fits_check`]
/// tells whether the precondition holds.
pub fn search_sorted_lower(
    vm_proxy: &mut VMProxy,
    exec_scopes_proxy: &mut ExecutionScopesProxy,
    ids_data: &IdsData,
    ap_tracking: &ApTracking,
) -> (r: Result<(), VirtualMachineError>)
    requires
        search_sorted_lower_fits(old(vm_proxy)@, old(exec_scopes_proxy)@, ids_data@),
    ensures
        final(vm_proxy)@.fp == old(vm_proxy)@.fp,
        final(exec_scopes_proxy)@ == old(exec_scopes_proxy)@,
        match search_sorted_lower_outcome(old(vm_proxy)@, old(exec_scopes_proxy)@, ids_data@) {
            Err(e) => r is Err && r->Err_0@ == e && final(vm_proxy)@ == old(vm_proxy)@,
            Ok(index) => match write_var(old(vm_proxy)@, ids_data@, "index"@, MemValue::Int(index)) {
                Err(e) => r is Err && r->Err_0@ == e && final(vm_proxy)@ == old(vm_proxy)@,
                Ok(m) => r is Ok && final(vm_proxy)@.memory == m,
            },
        },
{
    let index = search_sorted_lower_decide(vm_proxy, exec_scopes_proxy, ids_data, ap_tracking)?;
    insert_value_from_var_name("index", MaybeRelocatable::Int(index), vm_proxy, ids_data, ap_tracking)
}

// ---------------------------------------------------------------------------------
// Testing the preconditions
// ---------------------------------------------------------------------------------
/// The offset of element `i`, computed wide enough that it cannot overflow.
fn element_offset_wide(base: Relocatable, elm_size: usize, i: usize) -> (r: u128)
    ensures
        r == element_offset(base, elm_size as int, i as int),
{
    proof {
        let m: int = 0xffff_ffff_ffff_ffff;
        assert(elm_size as int * i as int <= m * m) by (nonlinear_arith)
            requires
                0 <= elm_size <= m,
                0 <= i <= m,
        ;
        assert(elm_size as int * i as int >= 0) by (nonlinear_arith)
            requires
                0 <= elm_size,
                0 <= i,
        ;
    }
    base.offset as u128 + (elm_size as u128) * (i as u128)
}

/// Tells whether the addresses that the `find_element` hint computes fit a `usize`,
/// that is, whether [`find_element`] may be called.
pub fn find_element_fits_check(
    vm_proxy: &VMProxy,
    exec_scopes_proxy: &ExecutionScopesProxy,
    ids_data: &IdsData,
    ap_tracking: &ApTracking,
) -> (r: bool)
    ensures
        r == find_element_fits(vm_proxy@, exec_scopes_proxy@, ids_data@),
{
    let key = match get_integer_from_var_name("key", vm_proxy, ids_data, ap_tracking) {
        Ok(k) => k,
        Err(_) => {
            return true;
        },
    };
    let elm_size_bigint = match get_integer_from_var_name("elm_size", vm_proxy, ids_data, ap_tracking) {
        Ok(e) => e,
        Err(_) => {
            return true;
        },
    };
    let base = match get_ptr_from_var_name("array_ptr", vm_proxy, ids_data, ap_tracking) {
        Ok(b) => b,
        Err(_) => {
            return true;
        },
    };
    let elm_size = match positive_elm_size(elm_size_bigint) {
        Ok(e) => e,
        Err(_) => {
            return true;
        },
    };
    match exec_scopes_proxy.get_int("find_element_index") {
        Ok(v) => match v.to_usize() {
            Some(index) => element_offset_wide(base, elm_size, index) <= usize::MAX as u128,
            None => true,
        },
        Err(_) => {
            let n_elms = match get_integer_from_var_name("n_elms", vm_proxy, ids_data, ap_tracking) {
                Ok(n) => n,
                Err(_) => {
                    return true;
                },
            };
            if !n_elms.is_positive() {
                return true;
            }
            match exec_scopes_proxy.get_int("find_element_max_size") {
                Ok(max_size) => {
                    if n_elms.greater_than(&max_size) {
                        return true;
                    }
                },
                Err(_) => {},
            }
            let n = match n_elms.to_i32() {
                Some(n) => n,
                None => {
                    return true;
                },
            };
            let ghost p = stops_find(vm_proxy@.memory, base, elm_size as int, key@);
            let ghost s = first_index(p, n as int);
            let ghost target = if s < n {
                s
            } else {
                n - 1
            };
            proof {
                lemma_first_index(p, n as int);
            }
            assert(find_element_fits(vm_proxy@, exec_scopes_proxy@, ids_data@) == (element_offset(
                base,
                elm_size as int,
                target,
            ) <= usize::MAX));
            let mut i: i32 = 0;
            while i < n
                invariant
                    find_element_fits(vm_proxy@, exec_scopes_proxy@, ids_data@) == (element_offset(
                        base,
                        elm_size as int,
                        target,
                    ) <= usize::MAX),
                    0 <= i <= n,
                    p == stops_find(vm_proxy@.memory, base, elm_size as int, key@),
                    s == first_index(p, n as int),
                    0 <= s <= n,
                    forall|j: int| 0 <= j < s ==> !#[trigger] p(j),
                    s < n ==> p(s),
                    i <= s,
                    target == (if s < n {
                        s
                    } else {
                        n - 1
                    }),
                    i > 0 ==> element_offset(base, elm_size as int, i - 1) <= usize::MAX,
                decreases n - i,
            {
                let off = element_offset_wide(base, elm_size, i as usize);
                if off > usize::MAX as u128 {
                    proof {
                        lemma_element_offset_monotone(base, elm_size as int, i as int, target);
                    }
                    return false;
                }
                let addr = Relocatable { segment_index: base.segment_index, offset: off as usize };
                match vm_proxy.memory.get_integer(&addr) {
                    Ok(v) => {
                        if v.equals(&key) {
                            assert(p(i as int));
                            return true;
                        }
                        assert(!p(i as int));
                    },
                    Err(_) => {
                        assert(p(i as int));
                        return true;
                    },
                }
                i = i + 1;
            }
            true
        },
    }
}

/// Tells whether the addresses that the `search_sorted_lower` hint computes fit a
/// `usize`, that is, whether [`search_sorted_lower`] may be called.
pub fn search_sorted_lower_fits_check(
    vm_proxy: &VMProxy,
    exec_scopes_proxy: &ExecutionScopesProxy,
    ids_data: &IdsData,
    ap_tracking: &ApTracking,
) -> (r: bool)
    ensures
        r == search_sorted_lower_fits(vm_proxy@, exec_scopes_proxy@, ids_data@),
{
    let ptr_addr = match get_relocatable_from_var_name("array_ptr", vm_proxy, ids_data, ap_tracking) {
        Ok(a) => a,
        Err(_) => {
            return true;
        },
    };
    let elm_size_bigint = match get_integer_from_var_name("elm_size", vm_proxy, ids_data, ap_tracking) {
        Ok(e) => e,
        Err(_) => {
            return true;
        },
    };
    let n_elms = match get_integer_from_var_name("n_elms", vm_proxy, ids_data, ap_tracking) {
        Ok(n) => n,
        Err(_) => {
            return true;
        },
    };
    let key = match get_integer_from_var_name("key", vm_proxy, ids_data, ap_tracking) {
        Ok(k) => k,
        Err(_) => {
            return true;
        },
    };
    let elm_size = match positive_elm_size(elm_size_bigint) {
        Ok(e) => e,
        Err(_) => {
            return true;
        },
    };
    if !n_elms.is_positive() {
        return true;
    }
    let n = match n_elms.to_usize() {
        Some(n) => n,
        None => {
            return true;
        },
    };
    match exec_scopes_proxy.get_int("find_element_max_size") {
        Ok(max_size) => {
            if n_elms.greater_than(&max_size) {
                return true;
            }
        },
        Err(_) => {},
    }
    let base = match vm_proxy.memory.get_relocatable(&ptr_addr) {
        Ok(b) => b,
        Err(_) => {
            return true;
        },
    };
    let ghost p = stops_lower(vm_proxy@.memory, base, elm_size as int, key@);
    let ghost s = first_index(p, n as int);
    proof {
        lemma_first_index(p, n as int);
    }
    assert(search_sorted_lower_fits(vm_proxy@, exec_scopes_proxy@, ids_data@) == (element_offset(
        base,
        elm_size as int,
        s,
    ) <= usize::MAX));
    let mut i: usize = 0;
    while i < n
        invariant
            search_sorted_lower_fits(vm_proxy@, exec_scopes_proxy@, ids_data@) == (element_offset(
                base,
                elm_size as int,
                s,
            ) <= usize::MAX),
            0 <= i <= n,
            p == stops_lower(vm_proxy@.memory, base, elm_size as int, key@),
            s == first_index(p, n as int),
            0 <= s <= n,
            forall|j: int| 0 <= j < s ==> !#[trigger] p(j),
            s < n ==> p(s),
            i <= s,
        decreases n - i,
    {
        let off = element_offset_wide(base, elm_size, i);
        if off > usize::MAX as u128 {
            proof {
                lemma_element_offset_monotone(base, elm_size as int, i as int, s);
            }
            return false;
        }
        let addr = Relocatable { segment_index: base.segment_index, offset: off as usize };
        match vm_proxy.memory.get_integer(&addr) {
            Ok(v) => {
                if v.greater_or_equal(&key) {
                    assert(p(i as int));
                    return true;
                }
                assert(!p(i as int));
            },
            Err(_) => {
                assert(p(i as int));
                return true;
            },
        }
        i = i + 1;
    }
    element_offset_wide(base, elm_size, n) <= usize::MAX as u128
}

} // verus!
