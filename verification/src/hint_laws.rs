use vstd::prelude::*;

use crate::element_search::{
    find_element_fits, find_element_outcome, first_index, lemma_element_offset_monotone,
    lemma_first_index, search_sorted_lower_fits, search_sorted_lower_outcome, stops_find,
    stops_lower,
};
use crate::errors::{MemoryErrorView, VmErrorView};
use crate::hint_utils::{read_address, read_int, read_ptr, var_address, write_address, write_var};
use crate::laws::law_memory_write_once;
use crate::memory::{mem_get, MemValue, MemoryView, Relocatable};
use crate::vm::{HintReference, VmView};

verus! {

// ---------------------------------------------------------------------------------
// What the hints do, in terms of the cells of memory
// ---------------------------------------------------------------------------------
/// The cell that holds the key of element `i` of an array that starts at `base` and
/// whose elements are `elm_size` cells long, as memory holds it.
pub open spec fn array_cell(mem: MemoryView, base: Relocatable, elm_size: int, i: int) -> Option<
    MemValue,
> {
    mem_get(mem, base.segment_index as int, base.offset + elm_size * i)
}

/// The cell holds an integer other than `key`.
pub open spec fn other_int(c: Option<MemValue>, key: int) -> bool {
    c matches Some(MemValue::Int(v)) && v != key
}

/// The cell holds an integer below `key`.
pub open spec fn int_below(c: Option<MemValue>, key: int) -> bool {
    c matches Some(MemValue::Int(v)) && v < key
}

/// The cell holds an integer at least `key`.
pub open spec fn int_at_least(c: Option<MemValue>, key: int) -> bool {
    c matches Some(MemValue::Int(v)) && v >= key
}

/// The cell holds an integer.
pub open spec fn holds_integer(c: Option<MemValue>) -> bool {
    c matches Some(MemValue::Int(_))
}

/// A variable of a hint lies `offset1` cells from the frame pointer, in the frame
/// pointer's segment; it has an address exactly where it has a reference and that
/// offset is a valid `usize`. It is written at that address, and read there where the
/// cell lies within its allocated segment or the segment is not allocated yet.
pub proof fn law_variable_address(vm: VmView, ids: Map<Seq<char>, HintReference>, name: Seq<char>)
    ensures
        var_address(vm, ids, name) is Some <==> (ids.contains_key(name) && 0 <= vm.fp.offset
            + ids[name].offset1 <= usize::MAX),
        var_address(vm, ids, name) is Some ==> {
            let a = var_address(vm, ids, name)->Some_0;
            &&& a.segment_index == vm.fp.segment_index
            &&& a.offset == vm.fp.offset + ids[name].offset1
            &&& write_address(vm, ids, name) == Ok::<Relocatable, VmErrorView>(a)
            &&& (a.segment_index >= vm.memory.len() || a.offset < vm.memory[a.segment_index as int].len())
                ==> read_address(vm, ids, name) == Ok::<Relocatable, VmErrorView>(a)
            &&& (a.segment_index < vm.memory.len() && a.offset >= vm.memory[a.segment_index as int].len())
                ==> read_address(vm, ids, name) == Err::<Relocatable, VmErrorView>(
                VmErrorView::FailedToGetIds,
            )
        },
        var_address(vm, ids, name) is None ==> read_address(vm, ids, name) == Err::<
            Relocatable,
            VmErrorView,
        >(VmErrorView::FailedToGetIds) && write_address(vm, ids, name) == Err::<
            Relocatable,
            VmErrorView,
        >(VmErrorView::FailedToGetIds),
{
}

/// Reading an integer variable gives the integer in its cell, an error that names the
/// cell where it holds none, or the error of its address.
pub proof fn law_read_int_reads_the_cell(vm: VmView, ids: Map<Seq<char>, HintReference>, name: Seq<char>)
    ensures
        read_address(vm, ids, name) is Err ==> read_int(vm, ids, name) == Err::<int, VmErrorView>(
            read_address(vm, ids, name)->Err_0,
        ),
        read_address(vm, ids, name) is Ok ==> {
            let a = read_address(vm, ids, name)->Ok_0;
            let c = mem_get(vm.memory, a.segment_index as int, a.offset as int);
            &&& c matches Some(MemValue::Int(v)) ==> read_int(vm, ids, name) == Ok::<int, VmErrorView>(v)
            &&& !holds_integer(c) ==> read_int(vm, ids, name) == Err::<int, VmErrorView>(
                VmErrorView::ExpectedInteger(MemValue::Ptr(a)),
            )
        },
{
}

/// Reading an address variable gives the address in its cell, an error that names the
/// cell where it holds none, or the error of its address.
pub proof fn law_read_ptr_reads_the_cell(vm: VmView, ids: Map<Seq<char>, HintReference>, name: Seq<char>)
    ensures
        read_address(vm, ids, name) is Err ==> read_ptr(vm, ids, name) == Err::<Relocatable, VmErrorView>(
            read_address(vm, ids, name)->Err_0,
        ),
        read_address(vm, ids, name) is Ok ==> {
            let a = read_address(vm, ids, name)->Ok_0;
            let c = mem_get(vm.memory, a.segment_index as int, a.offset as int);
            &&& c matches Some(MemValue::Ptr(p)) ==> read_ptr(vm, ids, name) == Ok::<
                Relocatable,
                VmErrorView,
            >(p)
            &&& !(c matches Some(MemValue::Ptr(_))) ==> read_ptr(vm, ids, name) == Err::<
                Relocatable,
                VmErrorView,
            >(VmErrorView::ExpectedRelocatable(MemValue::Ptr(a)))
        },
{
}

/// Writing a variable: without an address it fails with `FailedToGetIds`; into a
/// segment that is not allocated it fails; into a cell that holds another value it
/// fails; otherwise it succeeds, after which the cell holds the value and every cell
/// that held a value still holds it.
pub proof fn law_write_var_writes_the_cell(
    vm: VmView,
    ids: Map<Seq<char>, HintReference>,
    name: Seq<char>,
    v: MemValue,
)
    ensures
        write_address(vm, ids, name) is Err ==> write_var(vm, ids, name, v) == Err::<
            MemoryView,
            VmErrorView,
        >(VmErrorView::FailedToGetIds),
        write_address(vm, ids, name) is Ok ==> {
            let a = write_address(vm, ids, name)->Ok_0;
            let c = mem_get(vm.memory, a.segment_index as int, a.offset as int);
            &&& a.segment_index >= vm.memory.len() ==> write_var(vm, ids, name, v) == Err::<
                MemoryView,
                VmErrorView,
            >(
                VmErrorView::MemoryError(
                    MemoryErrorView::UnallocatedSegment(a.segment_index, vm.memory.len() as usize),
                ),
            )
            &&& (a.segment_index < vm.memory.len() && c is Some && c->Some_0 != v) ==> write_var(
                vm,
                ids,
                name,
                v,
            ) == Err::<MemoryView, VmErrorView>(
                VmErrorView::MemoryError(
                    MemoryErrorView::InconsistentMemory(MemValue::Ptr(a), c->Some_0, v),
                ),
            )
            &&& a.segment_index < vm.memory.len() && (c is None || c == Some(v)) ==> {
                let m = write_var(vm, ids, name, v)->Ok_0;
                &&& write_var(vm, ids, name, v) is Ok
                &&& mem_get(m, a.segment_index as int, a.offset as int) == Some(v)
                &&& forall|s: int, o: int|
                    #[trigger] mem_get(vm.memory, s, o) is Some ==> mem_get(m, s, o) == mem_get(
                        vm.memory,
                        s,
                        o,
                    )
            }
        },
{
    if write_address(vm, ids, name) is Ok {
        let a = write_address(vm, ids, name)->Ok_0;
        law_memory_write_once(vm.memory, a, v);
    }
}

// ---------------------------------------------------------------------------------
// find_element
// ---------------------------------------------------------------------------------
/// The key that a hint reads (meaningful where it can be read).
pub open spec fn key_of(vm: VmView, ids: Map<Seq<char>, HintReference>) -> int {
    read_int(vm, ids, "key"@)->Ok_0
}

/// The element size that a hint reads (meaningful where it can be read).
pub open spec fn elm_size_of(vm: VmView, ids: Map<Seq<char>, HintReference>) -> int {
    read_int(vm, ids, "elm_size"@)->Ok_0
}

/// The number of elements that a hint reads (meaningful where it can be read).
pub open spec fn n_elms_of(vm: VmView, ids: Map<Seq<char>, HintReference>) -> int {
    read_int(vm, ids, "n_elms"@)->Ok_0
}

/// The start of the array that `find_element` reads (meaningful where it can be read).
pub open spec fn array_of(vm: VmView, ids: Map<Seq<char>, HintReference>) -> Relocatable {
    read_ptr(vm, ids, "array_ptr"@)->Ok_0
}

/// `n_elms` exceeds a `find_element_max_size` that the scope holds.
pub open spec fn over_max_size(scopes: Map<Seq<char>, int>, n: int) -> bool {
    scopes.contains_key("find_element_max_size"@) && n > scopes["find_element_max_size"@]
}

/// `find_element` is about to scan: no index in the scope, `key`, `elm_size`,
/// `n_elms` and `array_ptr` read, a positive `usize` element size, and a number of
/// elements between 0 and `i32::MAX` that the maximum size, if any, admits.
pub open spec fn find_scan_ready(
    vm: VmView,
    scopes: Map<Seq<char>, int>,
    ids: Map<Seq<char>, HintReference>,
) -> bool {
    &&& !scopes.contains_key("find_element_index"@)
    &&& read_int(vm, ids, "key"@) is Ok
    &&& read_int(vm, ids, "elm_size"@) is Ok
    &&& read_int(vm, ids, "n_elms"@) is Ok
    &&& read_ptr(vm, ids, "array_ptr"@) is Ok
    &&& 1 <= elm_size_of(vm, ids) <= usize::MAX
    &&& 0 <= n_elms_of(vm, ids) <= i32::MAX
    &&& !over_max_size(scopes, n_elms_of(vm, ids))
}

/// `find_element` reads `key`, then `elm_size`, then (only without an index in the
/// scope) `n_elms`, then `array_ptr`; the first of them that cannot be read gives
/// the error.
pub proof fn law_find_element_read_order(
    vm: VmView,
    scopes: Map<Seq<char>, int>,
    ids: Map<Seq<char>, HintReference>,
)
    ensures
        read_int(vm, ids, "key"@) is Err ==> find_element_outcome(vm, scopes, ids) == Err::<
            (int, bool),
            VmErrorView,
        >(read_int(vm, ids, "key"@)->Err_0),
        read_int(vm, ids, "key"@) is Ok && read_int(vm, ids, "elm_size"@) is Err
            ==> find_element_outcome(vm, scopes, ids) == Err::<(int, bool), VmErrorView>(
            read_int(vm, ids, "elm_size"@)->Err_0,
        ),
        read_int(vm, ids, "key"@) is Ok && read_int(vm, ids, "elm_size"@) is Ok
            && !scopes.contains_key("find_element_index"@) && read_int(vm, ids, "n_elms"@) is Err
            ==> find_element_outcome(vm, scopes, ids) == Err::<(int, bool), VmErrorView>(
            read_int(vm, ids, "n_elms"@)->Err_0,
        ),
        read_int(vm, ids, "key"@) is Ok && read_int(vm, ids, "elm_size"@) is Ok && (
        scopes.contains_key("find_element_index"@) || read_int(vm, ids, "n_elms"@) is Ok)
            && read_ptr(vm, ids, "array_ptr"@) is Err ==> find_element_outcome(vm, scopes, ids)
            == Err::<(int, bool), VmErrorView>(read_ptr(vm, ids, "array_ptr"@)->Err_0),
{
}

/// With an index `x` in the scope, `find_element` neither reads `n_elms` nor consults
/// the maximum size: for any positive `usize` element size it succeeds with `x`
/// exactly when the key cell of element `x` holds `key` (whatever the size of the
/// integers), reports `InvalidIndex` with the integer found where it holds another
/// one, and `KeyNotFound` where it holds none.
pub proof fn law_find_element_with_index(
    vm: VmView,
    scopes: Map<Seq<char>, int>,
    ids: Map<Seq<char>, HintReference>,
)
    requires
        scopes.contains_key("find_element_index"@),
        read_int(vm, ids, "key"@) is Ok,
        read_int(vm, ids, "elm_size"@) is Ok,
        read_ptr(vm, ids, "array_ptr"@) is Ok,
    ensures
        ({
            let k = key_of(vm, ids);
            let e = elm_size_of(vm, ids);
            let base = array_of(vm, ids);
            let x = scopes["find_element_index"@];
            let c = array_cell(vm.memory, base, e, x);
            let r = find_element_outcome(vm, scopes, ids);
            &&& !(1 <= e <= usize::MAX) ==> r == Err::<(int, bool), VmErrorView>(
                VmErrorView::ValueOutOfRange(e),
            )
            &&& 1 <= e <= usize::MAX && !(0 <= x <= usize::MAX) ==> r == Err::<(int, bool), VmErrorView>(
                VmErrorView::BigintToUsizeFail,
            )
            &&& 1 <= e <= usize::MAX && 0 <= x <= usize::MAX ==> {
                &&& c == Some(MemValue::Int(k)) ==> r == Ok::<(int, bool), VmErrorView>((x, true))
                &&& other_int(c, k) ==> r == Err::<(int, bool), VmErrorView>(
                    VmErrorView::InvalidIndex(x, k, c->Some_0->Int_0),
                )
                &&& !holds_integer(c) ==> r == Err::<(int, bool), VmErrorView>(
                    VmErrorView::KeyNotFound,
                )
            }
        }),
{
}

/// Without an index in the scope and past the checks, `find_element` writes the
/// first element whose key cell holds `key`, every element before it holding another
/// integer, for any positive `usize` element size.
pub proof fn law_find_element_scan_finds(
    vm: VmView,
    scopes: Map<Seq<char>, int>,
    ids: Map<Seq<char>, HintReference>,
    i: int,
)
    requires
        find_scan_ready(vm, scopes, ids),
        0 <= i < n_elms_of(vm, ids),
        array_cell(vm.memory, array_of(vm, ids), elm_size_of(vm, ids), i) == Some(
            MemValue::Int(key_of(vm, ids)),
        ),
        forall|j: int|
            0 <= j < i ==> other_int(
                #[trigger] array_cell(vm.memory, array_of(vm, ids), elm_size_of(vm, ids), j),
                key_of(vm, ids),
            ),
    ensures
        find_element_outcome(vm, scopes, ids) == Ok::<(int, bool), VmErrorView>((i, false)),
{
    let k = key_of(vm, ids);
    let e = elm_size_of(vm, ids);
    let n = n_elms_of(vm, ids);
    let base = array_of(vm, ids);
    let p = stops_find(vm.memory, base, e, k);
    lemma_first_index(p, n);
    assert(p(i));
    assert forall|j: int| 0 <= j < i implies !#[trigger] p(j) by {
        assert(other_int(array_cell(vm.memory, base, e, j), k));
    }
    assert(first_index(p, n) == i);
}

/// Without an index in the scope and past the checks, `find_element` reports
/// `NoValueForKey` with the key where every one of the `n_elms` key cells holds an
/// integer other than `key`.
pub proof fn law_find_element_scan_misses(
    vm: VmView,
    scopes: Map<Seq<char>, int>,
    ids: Map<Seq<char>, HintReference>,
)
    requires
        find_scan_ready(vm, scopes, ids),
        forall|j: int|
            0 <= j < n_elms_of(vm, ids) ==> other_int(
                #[trigger] array_cell(vm.memory, array_of(vm, ids), elm_size_of(vm, ids), j),
                key_of(vm, ids),
            ),
    ensures
        find_element_outcome(vm, scopes, ids) == Err::<(int, bool), VmErrorView>(
            VmErrorView::NoValueForKey(key_of(vm, ids)),
        ),
{
    let k = key_of(vm, ids);
    let e = elm_size_of(vm, ids);
    let n = n_elms_of(vm, ids);
    let base = array_of(vm, ids);
    let p = stops_find(vm.memory, base, e, k);
    lemma_first_index(p, n);
    assert forall|j: int| 0 <= j < n implies !#[trigger] p(j) by {
        assert(other_int(array_cell(vm.memory, base, e, j), k));
    }
    assert(first_index(p, n) == n);
}

/// Without an index in the scope and past the checks, `find_element` reports
/// `KeyNotFound` where a key cell holds no integer and every one before it holds an
/// integer other than `key`.
pub proof fn law_find_element_scan_hole(
    vm: VmView,
    scopes: Map<Seq<char>, int>,
    ids: Map<Seq<char>, HintReference>,
    i: int,
)
    requires
        find_scan_ready(vm, scopes, ids),
        0 <= i < n_elms_of(vm, ids),
        !holds_integer(array_cell(vm.memory, array_of(vm, ids), elm_size_of(vm, ids), i)),
        forall|j: int|
            0 <= j < i ==> other_int(
                #[trigger] array_cell(vm.memory, array_of(vm, ids), elm_size_of(vm, ids), j),
                key_of(vm, ids),
            ),
    ensures
        find_element_outcome(vm, scopes, ids) == Err::<(int, bool), VmErrorView>(
            VmErrorView::KeyNotFound,
        ),
{
    let k = key_of(vm, ids);
    let e = elm_size_of(vm, ids);
    let n = n_elms_of(vm, ids);
    let base = array_of(vm, ids);
    let p = stops_find(vm.memory, base, e, k);
    lemma_first_index(p, n);
    assert(p(i));
    assert forall|j: int| 0 <= j < i implies !#[trigger] p(j) by {
        assert(other_int(array_cell(vm.memory, base, e, j), k));
    }
    assert(first_index(p, n) == i);
}

/// Without an index in the scope, once its variables are read, `find_element`
/// rejects, in this order: an element size that is not a positive `usize`, a negative
/// `n_elms`, an `n_elms` above the maximum size in the scope, and an `n_elms` above
/// `i32::MAX`.
pub proof fn law_find_element_scan_checks(
    vm: VmView,
    scopes: Map<Seq<char>, int>,
    ids: Map<Seq<char>, HintReference>,
)
    requires
        !scopes.contains_key("find_element_index"@),
        read_int(vm, ids, "key"@) is Ok,
        read_int(vm, ids, "elm_size"@) is Ok,
        read_int(vm, ids, "n_elms"@) is Ok,
        read_ptr(vm, ids, "array_ptr"@) is Ok,
    ensures
        ({
            let e = elm_size_of(vm, ids);
            let n = n_elms_of(vm, ids);
            let r = find_element_outcome(vm, scopes, ids);
            &&& !(1 <= e <= usize::MAX) ==> r == Err::<(int, bool), VmErrorView>(
                VmErrorView::ValueOutOfRange(e),
            )
            &&& 1 <= e <= usize::MAX && n < 0 ==> r == Err::<(int, bool), VmErrorView>(
                VmErrorView::ValueOutOfRange(n),
            )
            &&& 1 <= e <= usize::MAX && n >= 0 && over_max_size(scopes, n) ==> r == Err::<
                (int, bool),
                VmErrorView,
            >(VmErrorView::FindElemMaxSize(scopes["find_element_max_size"@], n))
            &&& 1 <= e <= usize::MAX && n >= 0 && !over_max_size(scopes, n) && n > i32::MAX ==> r
                == Err::<(int, bool), VmErrorView>(VmErrorView::OffsetExceeded(n))
        }),
{
}

/// The maximum size in the scope only bounds `n_elms`: where `find_element` uses an
/// index from the scope, or reads an `n_elms` that does not exceed it, the outcome is
/// the same as without it.
pub proof fn law_find_element_max_size_only_bounds_n_elms(
    vm: VmView,
    scopes: Map<Seq<char>, int>,
    ids: Map<Seq<char>, HintReference>,
)
    requires
        scopes.contains_key("find_element_index"@) || (read_int(vm, ids, "n_elms"@) is Ok
            && !over_max_size(scopes, n_elms_of(vm, ids))),
    ensures
        find_element_outcome(vm, scopes, ids) == find_element_outcome(
            vm,
            scopes.remove("find_element_max_size"@),
            ids,
        ),
{
    reveal_strlit("find_element_index");
    reveal_strlit("find_element_max_size");
    let fewer = scopes.remove("find_element_max_size"@);
    assert("find_element_index"@.len() != "find_element_max_size"@.len());
    assert("find_element_index"@ != "find_element_max_size"@);
    assert(fewer.contains_key("find_element_index"@) == scopes.contains_key("find_element_index"@));
    if scopes.contains_key("find_element_index"@) {
        assert(fewer["find_element_index"@] == scopes["find_element_index"@]);
    }
    assert(!over_max_size(fewer, n_elms_of(vm, ids)));
}

// ---------------------------------------------------------------------------------
// search_sorted_lower
// ---------------------------------------------------------------------------------
/// `search_sorted_lower` is about to take the lower bound: `array_ptr` holds an
/// address, `elm_size` is a positive `usize`, and `n_elms` is a `usize` that the
/// maximum size, if any, admits.
pub open spec fn lower_ready(
    vm: VmView,
    scopes: Map<Seq<char>, int>,
    ids: Map<Seq<char>, HintReference>,
) -> bool {
    &&& read_address(vm, ids, "array_ptr"@) is Ok
    &&& mem_get(
        vm.memory,
        read_address(vm, ids, "array_ptr"@)->Ok_0.segment_index as int,
        read_address(vm, ids, "array_ptr"@)->Ok_0.offset as int,
    ) matches Some(MemValue::Ptr(_))
    &&& read_int(vm, ids, "elm_size"@) is Ok
    &&& read_int(vm, ids, "n_elms"@) is Ok
    &&& 1 <= elm_size_of(vm, ids) <= usize::MAX
    &&& 0 <= n_elms_of(vm, ids) <= usize::MAX
    &&& !over_max_size(scopes, n_elms_of(vm, ids))
}

/// The start of the array that `search_sorted_lower` reads (meaningful where
/// `array_ptr` holds an address).
pub open spec fn lower_array_of(vm: VmView, ids: Map<Seq<char>, HintReference>) -> Relocatable {
    let a = read_address(vm, ids, "array_ptr"@)->Ok_0;
    mem_get(vm.memory, a.segment_index as int, a.offset as int)->Some_0->Ptr_0
}

/// `search_sorted_lower` reads the address of `array_ptr`, then `elm_size` (and
/// rejects one that is not positive), then `n_elms`; the first that cannot be read
/// gives the error. Where the array is not empty, the first element is read before
/// `key`.
pub proof fn law_search_sorted_lower_read_order(
    vm: VmView,
    scopes: Map<Seq<char>, int>,
    ids: Map<Seq<char>, HintReference>,
)
    ensures
        read_address(vm, ids, "array_ptr"@) is Err ==> search_sorted_lower_outcome(vm, scopes, ids)
            == Err::<int, VmErrorView>(read_address(vm, ids, "array_ptr"@)->Err_0),
        read_address(vm, ids, "array_ptr"@) is Ok && read_int(vm, ids, "elm_size"@) is Err
            ==> search_sorted_lower_outcome(vm, scopes, ids) == Err::<int, VmErrorView>(
            read_int(vm, ids, "elm_size"@)->Err_0,
        ),
        read_address(vm, ids, "array_ptr"@) is Ok && read_int(vm, ids, "elm_size"@) is Ok
            && elm_size_of(vm, ids) <= 0 ==> search_sorted_lower_outcome(vm, scopes, ids)
            == Err::<int, VmErrorView>(VmErrorView::ValueOutOfRange(elm_size_of(vm, ids))),
        read_address(vm, ids, "array_ptr"@) is Ok && read_int(vm, ids, "elm_size"@) is Ok
            && elm_size_of(vm, ids) > 0 && read_int(vm, ids, "n_elms"@) is Err
            ==> search_sorted_lower_outcome(vm, scopes, ids) == Err::<int, VmErrorView>(
            read_int(vm, ids, "n_elms"@)->Err_0,
        ),
        lower_ready(vm, scopes, ids) && n_elms_of(vm, ids) > 0 && holds_integer(
            array_cell(vm.memory, lower_array_of(vm, ids), elm_size_of(vm, ids), 0),
        ) && read_int(vm, ids, "key"@) is Err ==> search_sorted_lower_outcome(vm, scopes, ids)
            == Err::<int, VmErrorView>(read_int(vm, ids, "key"@)->Err_0),
{
}

/// Once its variables are read, `search_sorted_lower` rejects, in this order: a
/// non-positive element size, a negative `n_elms`, an `n_elms` above the maximum size
/// in the scope, an `array_ptr` that holds no address (naming its cell), and sizes
/// beyond `usize` (as `KeyNotFound`).
pub proof fn law_search_sorted_lower_checks(
    vm: VmView,
    scopes: Map<Seq<char>, int>,
    ids: Map<Seq<char>, HintReference>,
)
    requires
        read_address(vm, ids, "array_ptr"@) is Ok,
        read_int(vm, ids, "elm_size"@) is Ok,
        read_int(vm, ids, "n_elms"@) is Ok,
    ensures
        ({
            let a = read_address(vm, ids, "array_ptr"@)->Ok_0;
            let e = elm_size_of(vm, ids);
            let n = n_elms_of(vm, ids);
            let r = search_sorted_lower_outcome(vm, scopes, ids);
            let holds_address = mem_get(vm.memory, a.segment_index as int, a.offset as int) matches Some(
                MemValue::Ptr(_),
            );
            &&& e <= 0 ==> r == Err::<int, VmErrorView>(VmErrorView::ValueOutOfRange(e))
            &&& e > 0 && n < 0 ==> r == Err::<int, VmErrorView>(VmErrorView::ValueOutOfRange(n))
            &&& e > 0 && n >= 0 && over_max_size(scopes, n) ==> r == Err::<int, VmErrorView>(
                VmErrorView::FindElemMaxSize(scopes["find_element_max_size"@], n),
            )
            &&& e > 0 && n >= 0 && !over_max_size(scopes, n) && !holds_address ==> r == Err::<
                int,
                VmErrorView,
            >(VmErrorView::ExpectedRelocatable(MemValue::Ptr(a)))
            &&& e > 0 && n >= 0 && !over_max_size(scopes, n) && holds_address && (n > usize::MAX
                || e > usize::MAX) ==> r == Err::<int, VmErrorView>(VmErrorView::KeyNotFound)
        }),
{
}

/// An empty array gives the index 0, whatever `key` is and whether it can be read.
pub proof fn law_search_sorted_lower_empty(
    vm: VmView,
    scopes: Map<Seq<char>, int>,
    ids: Map<Seq<char>, HintReference>,
)
    requires
        lower_ready(vm, scopes, ids),
        n_elms_of(vm, ids) == 0,
    ensures
        search_sorted_lower_outcome(vm, scopes, ids) == Ok::<int, VmErrorView>(0),
{
}

/// Past the checks, `search_sorted_lower` gives the index `i` where every key cell
/// before it holds an integer below `key` and the one at it, where `i` is not
/// `n_elms`, holds an integer at least `key`, for any positive `usize` element size.
pub proof fn law_search_sorted_lower_answer(
    vm: VmView,
    scopes: Map<Seq<char>, int>,
    ids: Map<Seq<char>, HintReference>,
    i: int,
)
    requires
        lower_ready(vm, scopes, ids),
        n_elms_of(vm, ids) > 0,
        read_int(vm, ids, "key"@) is Ok,
        0 <= i <= n_elms_of(vm, ids),
        forall|j: int|
            0 <= j < i ==> int_below(
                #[trigger] array_cell(vm.memory, lower_array_of(vm, ids), elm_size_of(vm, ids), j),
                key_of(vm, ids),
            ),
        i < n_elms_of(vm, ids) ==> int_at_least(
            array_cell(vm.memory, lower_array_of(vm, ids), elm_size_of(vm, ids), i),
            key_of(vm, ids),
        ),
    ensures
        search_sorted_lower_outcome(vm, scopes, ids) == Ok::<int, VmErrorView>(i),
{
    let k = key_of(vm, ids);
    let e = elm_size_of(vm, ids);
    let n = n_elms_of(vm, ids);
    let base = lower_array_of(vm, ids);
    let p = stops_lower(vm.memory, base, e, k);
    lemma_first_index(p, n);
    assert forall|j: int| 0 <= j < i implies !#[trigger] p(j) by {
        assert(int_below(array_cell(vm.memory, base, e, j), k));
    }
    if i < n {
        assert(p(i));
    }
    assert(first_index(p, n) == i);
    if i == 0 {
        assert(int_at_least(array_cell(vm.memory, base, e, 0), k));
    } else {
        assert(int_below(array_cell(vm.memory, base, e, 0), k));
    }
}

/// Past the checks, `search_sorted_lower` reports an element whose key cell holds no
/// integer, every one before it holding an integer below `key`, with that cell's
/// address.
pub proof fn law_search_sorted_lower_hole(
    vm: VmView,
    scopes: Map<Seq<char>, int>,
    ids: Map<Seq<char>, HintReference>,
    i: int,
)
    requires
        lower_ready(vm, scopes, ids),
        0 <= i < n_elms_of(vm, ids),
        i == 0 || read_int(vm, ids, "key"@) is Ok,
        !holds_integer(array_cell(vm.memory, lower_array_of(vm, ids), elm_size_of(vm, ids), i)),
        forall|j: int|
            0 <= j < i ==> int_below(
                #[trigger] array_cell(vm.memory, lower_array_of(vm, ids), elm_size_of(vm, ids), j),
                key_of(vm, ids),
            ),
    ensures
        ({
            let base = lower_array_of(vm, ids);
            search_sorted_lower_outcome(vm, scopes, ids) == Err::<int, VmErrorView>(
                VmErrorView::ExpectedInteger(
                    MemValue::Ptr(
                        Relocatable {
                            segment_index: base.segment_index,
                            offset: (base.offset + elm_size_of(vm, ids) * i) as usize,
                        },
                    ),
                ),
            )
        }),
{
    let k = key_of(vm, ids);
    let e = elm_size_of(vm, ids);
    let n = n_elms_of(vm, ids);
    let base = lower_array_of(vm, ids);
    if i > 0 {
        let p = stops_lower(vm.memory, base, e, k);
        lemma_first_index(p, n);
        assert forall|j: int| 0 <= j < i implies !#[trigger] p(j) by {
            assert(int_below(array_cell(vm.memory, base, e, j), k));
        }
        assert(p(i));
        assert(first_index(p, n) == i);
        assert(int_below(array_cell(vm.memory, base, e, 0), k));
    }
}

/// The maximum size in the scope only bounds `n_elms`: where `search_sorted_lower`
/// reads an `n_elms` that does not exceed it, the outcome is the same as without it.
pub proof fn law_search_sorted_lower_max_size_only_bounds_n_elms(
    vm: VmView,
    scopes: Map<Seq<char>, int>,
    ids: Map<Seq<char>, HintReference>,
)
    requires
        read_int(vm, ids, "n_elms"@) is Ok,
        !over_max_size(scopes, n_elms_of(vm, ids)),
    ensures
        search_sorted_lower_outcome(vm, scopes, ids) == search_sorted_lower_outcome(
            vm,
            scopes.remove("find_element_max_size"@),
            ids,
        ),
{
    let fewer = scopes.remove("find_element_max_size"@);
    assert(!over_max_size(fewer, n_elms_of(vm, ids)));
}

// ---------------------------------------------------------------------------------
// When the hints may be called
// ---------------------------------------------------------------------------------
/// `find_element` may be called wherever the addresses it could compute fit a
/// `usize`: with an index from the scope, that of the element at it; otherwise those
/// of all `n_elms` elements. It may also be called wherever it fails before computing
/// any: a variable it cannot read, or an element size that is not a positive `usize`.
pub proof fn law_find_element_may_be_called(
    vm: VmView,
    scopes: Map<Seq<char>, int>,
    ids: Map<Seq<char>, HintReference>,
)
    ensures
        read_int(vm, ids, "key"@) is Err || read_int(vm, ids, "elm_size"@) is Err || read_ptr(
            vm,
            ids,
            "array_ptr"@,
        ) is Err || !(1 <= elm_size_of(vm, ids) <= usize::MAX) ==> find_element_fits(
            vm,
            scopes,
            ids,
        ),
        scopes.contains_key("find_element_index"@) && array_of(vm, ids).offset
            + elm_size_of(vm, ids) * scopes["find_element_index"@] <= usize::MAX
            ==> find_element_fits(vm, scopes, ids),
        !scopes.contains_key("find_element_index"@) && (read_int(vm, ids, "n_elms"@) is Err
            || n_elms_of(vm, ids) <= 0 || array_of(vm, ids).offset + elm_size_of(vm, ids) * (
        n_elms_of(vm, ids) - 1) <= usize::MAX) ==> find_element_fits(vm, scopes, ids),
{
    let e = elm_size_of(vm, ids);
    let n = n_elms_of(vm, ids);
    let base = array_of(vm, ids);
    let k = key_of(vm, ids);
    if !scopes.contains_key("find_element_index"@) && read_int(vm, ids, "n_elms"@) is Ok && 0 < n
        && 1 <= e {
        let p = stops_find(vm.memory, base, e, k);
        lemma_first_index(p, n);
        let s = first_index(p, n);
        let target = if s < n {
            s
        } else {
            n - 1
        };
        lemma_element_offset_monotone(base, e, target, n - 1);
    }
}

/// `search_sorted_lower` may be called wherever the addresses it could compute fit a
/// `usize`: those of all `n_elms` elements and the one after them. It may also be
/// called wherever it fails or stops before computing any.
pub proof fn law_search_sorted_lower_may_be_called(
    vm: VmView,
    scopes: Map<Seq<char>, int>,
    ids: Map<Seq<char>, HintReference>,
)
    ensures
        !lower_ready(vm, scopes, ids) || read_int(vm, ids, "key"@) is Err || n_elms_of(vm, ids)
            == 0 ==> search_sorted_lower_fits(vm, scopes, ids),
        lower_ready(vm, scopes, ids) && lower_array_of(vm, ids).offset + elm_size_of(vm, ids)
            * n_elms_of(vm, ids) <= usize::MAX ==> search_sorted_lower_fits(vm, scopes, ids),
{
    let e = elm_size_of(vm, ids);
    let n = n_elms_of(vm, ids);
    if lower_ready(vm, scopes, ids) && read_int(vm, ids, "key"@) is Ok {
        let base = lower_array_of(vm, ids);
        let k = key_of(vm, ids);
        let p = stops_lower(vm.memory, base, e, k);
        lemma_first_index(p, n);
        let s = first_index(p, n);
        lemma_element_offset_monotone(base, e, s, n);
    }
}

} // verus!
