use vstd::prelude::*;

use crate::element_search::{
    element_address, element_key, find_element_outcome, find_scan, first_index,
    lemma_first_index, lower_scan, search_sorted_lower_outcome,
    stops_find, stops_lower,
};
use crate::errors::VmErrorView;
use crate::hint_utils::{read_address, read_int, read_ptr, var_address, write_address, write_var};
use crate::memory::{mem_get, mem_insert, MemValue, MemoryView, Relocatable};
use crate::vm::{HintReference, VmView};

verus! {

/// Element `i` of the array holds an integer in its key cell.
pub open spec fn holds_int(mem: MemoryView, base: Relocatable, elm_size: int, i: int) -> bool {
    element_key(mem, base, elm_size, i) matches Some(MemValue::Int(_))
}

/// The integer in the key cell of element `i` (0 where there is none).
pub open spec fn key_value(mem: MemoryView, base: Relocatable, elm_size: int, i: int) -> int {
    match element_key(mem, base, elm_size, i) {
        Some(MemValue::Int(v)) => v,
        _ => 0,
    }
}

/// The `n` elements of the array all hold integers, in nondecreasing order.
pub open spec fn sorted_keys(mem: MemoryView, base: Relocatable, elm_size: int, n: int) -> bool {
    &&& forall|i: int| 0 <= i < n ==> #[trigger] holds_int(mem, base, elm_size, i)
    &&& forall|i: int, j: int|
        0 <= i <= j < n ==> #[trigger] key_value(mem, base, elm_size, i) <= #[trigger] key_value(
            mem,
            base,
            elm_size,
            j,
        )
}

/// The linear scan for a key finds the first element that holds it: every element
/// before it holds another integer. It reports `NoValueForKey` only where all `n`
/// elements hold integers other than the key, and `KeyNotFound` only where an element
/// that holds no integer comes before any that holds the key.
pub proof fn law_find_scan_first_match(
    mem: MemoryView,
    base: Relocatable,
    elm_size: int,
    n: int,
    key: int,
)
    requires
        0 <= n,
    ensures
        match find_scan(mem, base, elm_size, n, key) {
            Ok(i) => {
                &&& 0 <= i < n
                &&& element_key(mem, base, elm_size, i) == Some(MemValue::Int(key))
                &&& forall|j: int|
                    0 <= j < i ==> #[trigger] holds_int(mem, base, elm_size, j) && key_value(
                        mem,
                        base,
                        elm_size,
                        j,
                    ) != key
            },
            Err(VmErrorView::NoValueForKey(k)) => {
                &&& k == key
                &&& forall|j: int|
                    0 <= j < n ==> #[trigger] holds_int(mem, base, elm_size, j) && key_value(
                        mem,
                        base,
                        elm_size,
                        j,
                    ) != key
            },
            Err(VmErrorView::KeyNotFound) => exists|i: int|
                0 <= i < n && !holds_int(mem, base, elm_size, i) && forall|j: int|
                    0 <= j < i ==> #[trigger] holds_int(mem, base, elm_size, j) && key_value(
                        mem,
                        base,
                        elm_size,
                        j,
                    ) != key,
            Err(_) => false,
        },
{
    let p = stops_find(mem, base, elm_size, key);
    lemma_first_index(p, n);
    let s = first_index(p, n);
    assert forall|j: int| 0 <= j < s implies #[trigger] holds_int(mem, base, elm_size, j)
        && key_value(mem, base, elm_size, j) != key by {
        assert(!p(j));
    }
    if s < n {
        assert(p(s));
        if !holds_int(mem, base, elm_size, s) {
            assert(0 <= s < n && !holds_int(mem, base, elm_size, s));
        }
    }
}

/// The elements before `i` all hold integers below `key`.
pub open spec fn below_key_before(
    mem: MemoryView,
    base: Relocatable,
    elm_size: int,
    key: int,
    i: int,
) -> bool {
    forall|j: int|
        0 <= j < i ==> #[trigger] holds_int(mem, base, elm_size, j) && key_value(
            mem,
            base,
            elm_size,
            j,
        ) < key
}

/// Every element before the first stop of the lower-bound scan holds an integer below
/// the key.
proof fn lemma_below_key_before_lower_stop(
    mem: MemoryView,
    base: Relocatable,
    elm_size: int,
    n: int,
    key: int,
)
    requires
        0 <= n,
    ensures
        below_key_before(mem, base, elm_size, key, first_index(stops_lower(mem, base, elm_size, key), n)),
{
    let p = stops_lower(mem, base, elm_size, key);
    lemma_first_index(p, n);
    let s = first_index(p, n);
    assert forall|j: int| 0 <= j < s implies #[trigger] holds_int(mem, base, elm_size, j)
        && key_value(mem, base, elm_size, j) < key by {
        assert(!p(j));
    }
}

/// The scan for the lower bound of a key returns the index of the first element that
/// holds a value at least the key, every element before it holding a smaller integer,
/// or `n` where all `n` elements hold smaller integers. It reports an error only for
/// an element that holds no integer and comes before any that holds a value at least
/// the key, and the error names that element's address.
pub proof fn law_lower_scan_bound(mem: MemoryView, base: Relocatable, elm_size: int, n: int, key: int)
    requires
        0 <= n,
    ensures
        lower_scan(mem, base, elm_size, n, key) is Ok ==> {
            let i = lower_scan(mem, base, elm_size, n, key)->Ok_0;
            &&& 0 <= i <= n
            &&& below_key_before(mem, base, elm_size, key, i)
            &&& i < n ==> holds_int(mem, base, elm_size, i) && key_value(mem, base, elm_size, i)
                >= key
        },
        lower_scan(mem, base, elm_size, n, key) is Err ==> exists|i: int|
            0 <= i < n && lower_scan(mem, base, elm_size, n, key)->Err_0
                == VmErrorView::ExpectedInteger(MemValue::Ptr(element_address(base, elm_size, i)))
                && !#[trigger] holds_int(mem, base, elm_size, i) && below_key_before(
                mem,
                base,
                elm_size,
                key,
                i,
            ),
{
    let p = stops_lower(mem, base, elm_size, key);
    lemma_first_index(p, n);
    let s = first_index(p, n);
    lemma_below_key_before_lower_stop(mem, base, elm_size, n, key);
    if s < n {
        assert(p(s));
        if !holds_int(mem, base, elm_size, s) {
            assert(lower_scan(mem, base, elm_size, n, key)->Err_0 == VmErrorView::ExpectedInteger(
                MemValue::Ptr(element_address(base, elm_size, s)),
            ));
        }
    }
}

/// On an array of integers in nondecreasing order, the lower bound splits the array:
/// every element before it is below the key, every element from it on is at least
/// the key.
pub proof fn law_lower_scan_sorted(mem: MemoryView, base: Relocatable, elm_size: int, n: int, key: int)
    requires
        0 <= n,
        sorted_keys(mem, base, elm_size, n),
    ensures
        lower_scan(mem, base, elm_size, n, key) is Ok,
        forall|j: int|
            0 <= j < lower_scan(mem, base, elm_size, n, key)->Ok_0 ==> #[trigger] key_value(
                mem,
                base,
                elm_size,
                j,
            ) < key,
        forall|j: int|
            lower_scan(mem, base, elm_size, n, key)->Ok_0 <= j < n ==> #[trigger] key_value(
                mem,
                base,
                elm_size,
                j,
            ) >= key,
{
    law_lower_scan_bound(mem, base, elm_size, n, key);
    let p = stops_lower(mem, base, elm_size, key);
    lemma_first_index(p, n);
    let s = first_index(p, n);
    if s < n {
        assert(p(s));
        assert(holds_int(mem, base, elm_size, s));
    }
    assert forall|j: int| 0 <= j < s implies #[trigger] key_value(mem, base, elm_size, j) < key by {
        assert(holds_int(mem, base, elm_size, j));
    }
    assert forall|j: int| s <= j < n implies #[trigger] key_value(mem, base, elm_size, j) >= key by {
        assert(key_value(mem, base, elm_size, s) <= key_value(mem, base, elm_size, j));
        assert(holds_int(mem, base, elm_size, s));
        assert(p(s));
    }
}

/// On an array of integers in nondecreasing order, the linear scan for a key and the
/// scan for its lower bound agree: the key is found exactly where the lower bound
/// points at an element that holds it, and at the same index.
pub proof fn law_find_agrees_with_lower_bound(
    mem: MemoryView,
    base: Relocatable,
    elm_size: int,
    n: int,
    key: int,
)
    requires
        0 <= n,
        sorted_keys(mem, base, elm_size, n),
    ensures
        find_scan(mem, base, elm_size, n, key) == (match lower_scan(mem, base, elm_size, n, key) {
            Ok(i) => if i < n && key_value(mem, base, elm_size, i) == key {
                Ok(i)
            } else {
                Err(VmErrorView::NoValueForKey(key))
            },
            Err(e) => Err(e),
        }),
{
    law_lower_scan_sorted(mem, base, elm_size, n, key);
    let pf = stops_find(mem, base, elm_size, key);
    let pl = stops_lower(mem, base, elm_size, key);
    lemma_first_index(pf, n);
    lemma_first_index(pl, n);
    let sl = first_index(pl, n);
    let sf = first_index(pf, n);
    assert forall|j: int| 0 <= j < sl implies !#[trigger] pf(j) by {
        assert(holds_int(mem, base, elm_size, j));
        assert(key_value(mem, base, elm_size, j) < key);
    }
    if sl < n && key_value(mem, base, elm_size, sl) == key {
        assert(holds_int(mem, base, elm_size, sl));
        assert(pf(sl));
        assert(sf == sl);
    } else {
        assert forall|j: int| 0 <= j < n implies !#[trigger] pf(j) by {
            assert(holds_int(mem, base, elm_size, j));
            if j >= sl {
                assert(key_value(mem, base, elm_size, sl) <= key_value(mem, base, elm_size, j));
                assert(holds_int(mem, base, elm_size, sl));
            }
        }
        assert(sf == n);
    }
}

/// A refused write changes nothing; an accepted write leaves the written value in
/// the cell, keeps every cell that held a value, and writing the same value again
/// changes nothing more.
pub proof fn law_memory_write_once(mem: MemoryView, addr: Relocatable, v: MemValue)
    ensures
        mem_insert(mem, addr, v) is Ok ==> {
            let m = mem_insert(mem, addr, v)->Ok_0;
            &&& mem_get(m, addr.segment_index as int, addr.offset as int) == Some(v)
            &&& forall|s: int, o: int|
                #[trigger] mem_get(mem, s, o) is Some ==> mem_get(m, s, o) == mem_get(mem, s, o)
            &&& mem_insert(m, addr, v) == Ok::<MemoryView, crate::errors::MemoryErrorView>(m)
        },
{
    if mem_insert(mem, addr, v) is Ok {
        let m = mem_insert(mem, addr, v)->Ok_0;
        let seg = addr.segment_index as int;
        let off = addr.offset as int;
        if mem_get(mem, seg, off) is None {
            let padded = crate::memory::padded_segment(mem[seg], off);
            assert(padded.len() > off);
            assert forall|s: int, o: int| #[trigger] mem_get(mem, s, o) is Some implies mem_get(
                m,
                s,
                o,
            ) == mem_get(mem, s, o) by {
                if s == seg {
                    assert(o != off);
                    assert(padded[o] == mem[seg][o]);
                }
            }
        }
    }
}

/// After `find_element` decides on an index and writes it, the variable `index`
/// holds that index, and the element at that index (from `array_ptr`, `elm_size`
/// cells apart) holds `key`, whether the index came from the scope or from the scan.
pub proof fn law_find_element_index_holds_key(
    vm: VmView,
    scopes: Map<Seq<char>, int>,
    ids: Map<Seq<char>, HintReference>,
)
    requires
        find_element_outcome(vm, scopes, ids) is Ok,
    ensures
        ({
            let index = find_element_outcome(vm, scopes, ids)->Ok_0.0;
            &&& read_int(vm, ids, "key"@) is Ok
            &&& read_int(vm, ids, "elm_size"@) is Ok
            &&& read_ptr(vm, ids, "array_ptr"@) is Ok
            &&& element_key(
                vm.memory,
                read_ptr(vm, ids, "array_ptr"@)->Ok_0,
                read_int(vm, ids, "elm_size"@)->Ok_0,
                index,
            ) == Some(MemValue::Int(read_int(vm, ids, "key"@)->Ok_0))
            &&& write_var(vm, ids, "index"@, MemValue::Int(index)) is Ok ==> read_int(
                VmView { memory: write_var(vm, ids, "index"@, MemValue::Int(index))->Ok_0, fp: vm.fp },
                ids,
                "index"@,
            ) == Ok::<int, VmErrorView>(index)
        }),
{
    let index = find_element_outcome(vm, scopes, ids)->Ok_0.0;
    let key = read_int(vm, ids, "key"@)->Ok_0;
    let elm_size = read_int(vm, ids, "elm_size"@)->Ok_0;
    let n_elms = read_int(vm, ids, "n_elms"@)->Ok_0;
    let base = read_ptr(vm, ids, "array_ptr"@)->Ok_0;
    if !scopes.contains_key("find_element_index"@) {
        law_find_scan_first_match(vm.memory, base, elm_size, n_elms, key);
    }
    let a = write_address(vm, ids, "index"@);
    if a is Ok {
        law_memory_write_once(vm.memory, a->Ok_0, MemValue::Int(index));
    }
}

/// The address of the array that the `search_sorted_lower` hint scans: the address
/// held by the variable `array_ptr`.
pub open spec fn lower_hint_base(vm: VmView, ids: Map<Seq<char>, HintReference>) -> Relocatable {
    let ptr_addr = read_address(vm, ids, "array_ptr"@)->Ok_0;
    mem_get(vm.memory, ptr_addr.segment_index as int, ptr_addr.offset as int)->Some_0->Ptr_0
}

/// A lower-bound scan that succeeds returns the first index at which it stops.
proof fn lemma_lower_scan_ok(mem: MemoryView, base: Relocatable, elm_size: int, n: int, key: int)
    requires
        0 <= n,
        lower_scan(mem, base, elm_size, n, key) is Ok,
    ensures
        lower_scan(mem, base, elm_size, n, key)->Ok_0 == first_index(
            stops_lower(mem, base, elm_size, key),
            n,
        ),
{
    lemma_first_index(stops_lower(mem, base, elm_size, key), n);
}

/// After `search_sorted_lower` decides on an index, it lies between 0 and `n_elms`;
/// where the array is not empty, every element before it holds an integer below
/// `key`, and the element at it, where it is not `n_elms`, holds one at least `key`;
/// an empty array gives 0. Once written, the variable `index` holds it.
pub proof fn law_search_sorted_lower_index_is_lower_bound(
    vm: VmView,
    scopes: Map<Seq<char>, int>,
    ids: Map<Seq<char>, HintReference>,
)
    requires
        search_sorted_lower_outcome(vm, scopes, ids) is Ok,
    ensures
        read_address(vm, ids, "array_ptr"@) is Ok,
        read_int(vm, ids, "elm_size"@) is Ok,
        read_int(vm, ids, "n_elms"@) is Ok,
        ({
            let ptr_addr = read_address(vm, ids, "array_ptr"@)->Ok_0;
            mem_get(vm.memory, ptr_addr.segment_index as int, ptr_addr.offset as int) matches Some(
                MemValue::Ptr(_),
            )
        }),
        ({
            let index = search_sorted_lower_outcome(vm, scopes, ids)->Ok_0;
            let base = lower_hint_base(vm, ids);
            let elm_size = read_int(vm, ids, "elm_size"@)->Ok_0;
            let key = read_int(vm, ids, "key"@)->Ok_0;
            let n_elms = read_int(vm, ids, "n_elms"@)->Ok_0;
            &&& 0 <= index <= n_elms
            &&& n_elms == 0 ==> index == 0
            &&& n_elms > 0 ==> {
                &&& read_int(vm, ids, "key"@) is Ok
                &&& below_key_before(vm.memory, base, elm_size, key, index)
                &&& index < n_elms ==> holds_int(vm.memory, base, elm_size, index) && key_value(
                    vm.memory,
                    base,
                    elm_size,
                    index,
                ) >= key
            }
            &&& write_var(vm, ids, "index"@, MemValue::Int(index)) is Ok ==> read_int(
                VmView { memory: write_var(vm, ids, "index"@, MemValue::Int(index))->Ok_0, fp: vm.fp },
                ids,
                "index"@,
            ) == Ok::<int, VmErrorView>(index)
        }),
{
    let elm_size = read_int(vm, ids, "elm_size"@)->Ok_0;
    let key = read_int(vm, ids, "key"@)->Ok_0;
    let n_elms = read_int(vm, ids, "n_elms"@)->Ok_0;
    let base = lower_hint_base(vm, ids);
    let index = search_sorted_lower_outcome(vm, scopes, ids)->Ok_0;
    if n_elms > 0 {
        law_lower_scan_bound(vm.memory, base, elm_size, n_elms, key);
        assert(search_sorted_lower_outcome(vm, scopes, ids) == lower_scan(
            vm.memory,
            base,
            elm_size,
            n_elms,
            key,
        ));
    }
    let a = write_address(vm, ids, "index"@);
    if a is Ok {
        law_memory_write_once(vm.memory, a->Ok_0, MemValue::Int(index));
    }
}

/// On an array of integers in nondecreasing order, the index that
/// `search_sorted_lower` decides on splits the array: every element before it is
/// below `key`, every element from it on is at least `key`.
pub proof fn law_search_sorted_lower_sorted_split(
    vm: VmView,
    scopes: Map<Seq<char>, int>,
    ids: Map<Seq<char>, HintReference>,
)
    requires
        search_sorted_lower_outcome(vm, scopes, ids) is Ok,
        sorted_keys(
            vm.memory,
            lower_hint_base(vm, ids),
            read_int(vm, ids, "elm_size"@)->Ok_0,
            read_int(vm, ids, "n_elms"@)->Ok_0,
        ),
    ensures
        ({
            let index = search_sorted_lower_outcome(vm, scopes, ids)->Ok_0;
            let base = lower_hint_base(vm, ids);
            let elm_size = read_int(vm, ids, "elm_size"@)->Ok_0;
            let key = read_int(vm, ids, "key"@)->Ok_0;
            let n_elms = read_int(vm, ids, "n_elms"@)->Ok_0;
            &&& forall|j: int| 0 <= j < index ==> #[trigger] key_value(vm.memory, base, elm_size, j) < key
            &&& forall|j: int|
                index <= j < n_elms ==> #[trigger] key_value(vm.memory, base, elm_size, j) >= key
        }),
{
    let elm_size = read_int(vm, ids, "elm_size"@)->Ok_0;
    let key = read_int(vm, ids, "key"@)->Ok_0;
    let n_elms = read_int(vm, ids, "n_elms"@)->Ok_0;
    let base = lower_hint_base(vm, ids);
    law_search_sorted_lower_index_is_lower_bound(vm, scopes, ids);
    if n_elms > 0 {
        law_lower_scan_sorted(vm.memory, base, elm_size, n_elms, key);
        assert(search_sorted_lower_outcome(vm, scopes, ids) == lower_scan(
            vm.memory,
            base,
            elm_size,
            n_elms,
            key,
        ));
    }
}

/// The checks of `search_sorted_lower`, in their order: where `array_ptr`, `elm_size`,
/// `n_elms` and `key` can be read and `array_ptr` holds an address, a non-positive
/// `elm_size` is reported first (whatever `n_elms` is), then a negative `n_elms`, then
/// one above `find_element_max_size`, then sizes beyond `usize` (as `KeyNotFound`).
/// Past these checks the outcome is the lower-bound scan, which reports an element
/// that holds no integer before the answer with that element's own address.
pub proof fn law_search_sorted_lower_errors(
    vm: VmView,
    scopes: Map<Seq<char>, int>,
    ids: Map<Seq<char>, HintReference>,
)
    requires
        read_address(vm, ids, "array_ptr"@) is Ok,
        read_int(vm, ids, "elm_size"@) is Ok,
        read_int(vm, ids, "n_elms"@) is Ok,
        read_int(vm, ids, "key"@) is Ok,
        ({
            let ptr_addr = read_address(vm, ids, "array_ptr"@)->Ok_0;
            mem_get(vm.memory, ptr_addr.segment_index as int, ptr_addr.offset as int) matches Some(
                MemValue::Ptr(_),
            )
        }),
    ensures
        ({
            let r = search_sorted_lower_outcome(vm, scopes, ids);
            let e = read_int(vm, ids, "elm_size"@)->Ok_0;
            let n = read_int(vm, ids, "n_elms"@)->Ok_0;
            let k = read_int(vm, ids, "key"@)->Ok_0;
            let base = lower_hint_base(vm, ids);
            let over_max = scopes.contains_key("find_element_max_size"@) && n
                > scopes["find_element_max_size"@];
            &&& e <= 0 ==> r == Err::<int, VmErrorView>(VmErrorView::ValueOutOfRange(e))
            &&& e > 0 && n < 0 ==> r == Err::<int, VmErrorView>(VmErrorView::ValueOutOfRange(n))
            &&& e > 0 && n >= 0 && over_max ==> r == Err::<int, VmErrorView>(
                VmErrorView::FindElemMaxSize(scopes["find_element_max_size"@], n),
            )
            &&& e > 0 && n >= 0 && !over_max && (n > usize::MAX || e > usize::MAX) ==> r == Err::<
                int,
                VmErrorView,
            >(VmErrorView::KeyNotFound)
            &&& 0 < e <= usize::MAX && 0 <= n <= usize::MAX && !over_max ==> {
                &&& r == lower_scan(vm.memory, base, e, n, k)
                &&& r is Err ==> exists|i: int|
                    0 <= i < n && r->Err_0 == VmErrorView::ExpectedInteger(
                        MemValue::Ptr(element_address(base, e, i)),
                    ) && !#[trigger] holds_int(vm.memory, base, e, i) && below_key_before(
                        vm.memory,
                        base,
                        e,
                        k,
                        i,
                    )
            }
        }),
{
    let e = read_int(vm, ids, "elm_size"@)->Ok_0;
    let n = read_int(vm, ids, "n_elms"@)->Ok_0;
    let k = read_int(vm, ids, "key"@)->Ok_0;
    let base = lower_hint_base(vm, ids);
    if n >= 0 {
        law_lower_scan_bound(vm.memory, base, e, n, k);
        let p = stops_lower(vm.memory, base, e, k);
        lemma_first_index(p, n);
        if n > 0 && !holds_int(vm.memory, base, e, 0) {
            assert(p(0));
            assert(first_index(p, n) == 0);
        }
        if n == 0 {
            assert(lower_scan(vm.memory, base, e, n, k) == Ok::<int, VmErrorView>(0));
        }
    }
}

/// The lower bound never moves back when the key grows: where the scan for the larger
/// key succeeds, the scan for the smaller one succeeds too, at an index no greater.
pub proof fn law_lower_scan_monotone_in_key(
    mem: MemoryView,
    base: Relocatable,
    elm_size: int,
    n: int,
    k1: int,
    k2: int,
)
    requires
        0 <= n,
        k1 <= k2,
    ensures
        lower_scan(mem, base, elm_size, n, k2) is Ok ==> {
            &&& lower_scan(mem, base, elm_size, n, k1) is Ok
            &&& lower_scan(mem, base, elm_size, n, k1)->Ok_0 <= lower_scan(
                mem,
                base,
                elm_size,
                n,
                k2,
            )->Ok_0
        },
{
    let p1 = stops_lower(mem, base, elm_size, k1);
    let p2 = stops_lower(mem, base, elm_size, k2);
    lemma_first_index(p1, n);
    lemma_first_index(p2, n);
    let s1 = first_index(p1, n);
    let s2 = first_index(p2, n);
    if s2 < n {
        assert(p2(s2));
        assert(p1(s2));
    }
    assert(s1 <= s2);
    if s1 < s2 {
        assert(!p2(s1));
    }
}

/// Two predicates, the second implying the first on `0..n1`, with `n1 <= n2`: the
/// first stops no later than the second.
proof fn lemma_first_index_earlier(
    p: spec_fn(int) -> bool,
    q: spec_fn(int) -> bool,
    n1: int,
    n2: int,
)
    requires
        0 <= n1 <= n2,
        forall|j: int| 0 <= j < n1 && #[trigger] q(j) ==> p(j),
    ensures
        first_index(p, n1) <= first_index(q, n2),
{
    lemma_first_index(p, n1);
    lemma_first_index(q, n2);
    let s2 = first_index(q, n2);
    if s2 < n1 {
        assert(q(s2));
        assert(p(s2));
    }
}

/// The `search_sorted_lower` hint is monotone in the key: of two runs that succeed on
/// memories that differ only in the cell of `key` (which may also be the cell of
/// `n_elms` or of an element, but not that of `elm_size`), the one with the smaller
/// key writes an index no greater; with equal keys both decide the same.
pub proof fn law_search_sorted_lower_monotone_in_key(
    vm1: VmView,
    vm2: VmView,
    scopes: Map<Seq<char>, int>,
    ids: Map<Seq<char>, HintReference>,
)
    requires
        vm1.fp == vm2.fp,
        vm1.memory.len() == vm2.memory.len(),
        forall|s: int| 0 <= s < vm1.memory.len() ==> #[trigger] vm1.memory[s].len() == vm2.memory[s].len(),
        read_address(vm2, ids, "key"@) is Ok,
        forall|s: int, o: int|
            !(s == read_address(vm2, ids, "key"@)->Ok_0.segment_index && o == read_address(
                vm2,
                ids,
                "key"@,
            )->Ok_0.offset) ==> #[trigger] mem_get(vm1.memory, s, o) == mem_get(vm2.memory, s, o),
        read_address(vm2, ids, "elm_size"@) != read_address(vm2, ids, "key"@),
        read_int(vm1, ids, "key"@) is Ok,
        read_int(vm2, ids, "key"@) is Ok,
        read_int(vm1, ids, "key"@)->Ok_0 <= read_int(vm2, ids, "key"@)->Ok_0,
        search_sorted_lower_outcome(vm1, scopes, ids) is Ok,
        search_sorted_lower_outcome(vm2, scopes, ids) is Ok,
    ensures
        search_sorted_lower_outcome(vm1, scopes, ids)->Ok_0 <= search_sorted_lower_outcome(
            vm2,
            scopes,
            ids,
        )->Ok_0,
        read_int(vm1, ids, "key"@) == read_int(vm2, ids, "key"@) ==> search_sorted_lower_outcome(
            vm1,
            scopes,
            ids,
        ) == search_sorted_lower_outcome(vm2, scopes, ids),
{
    let ka = read_address(vm2, ids, "key"@)->Ok_0;
    assert forall|name: Seq<char>| #[trigger] read_address(vm1, ids, name) == read_address(vm2, ids, name) by {
        assert(var_address(vm1, ids, name) == var_address(vm2, ids, name));
    }
    let k1 = read_int(vm1, ids, "key"@)->Ok_0;
    let k2 = read_int(vm2, ids, "key"@)->Ok_0;
    assert(mem_get(vm1.memory, ka.segment_index as int, ka.offset as int) == Some(MemValue::Int(k1)));
    assert(mem_get(vm2.memory, ka.segment_index as int, ka.offset as int) == Some(MemValue::Int(k2)));
    let pa = read_address(vm2, ids, "array_ptr"@)->Ok_0;
    let ea = read_address(vm2, ids, "elm_size"@)->Ok_0;
    let na = read_address(vm2, ids, "n_elms"@)->Ok_0;
    assert(read_address(vm1, ids, "array_ptr"@) == read_address(vm2, ids, "array_ptr"@));
    assert(read_address(vm1, ids, "elm_size"@) == read_address(vm2, ids, "elm_size"@));
    assert(read_address(vm1, ids, "n_elms"@) == read_address(vm2, ids, "n_elms"@));
    assert(mem_get(vm1.memory, ea.segment_index as int, ea.offset as int) == mem_get(
        vm2.memory,
        ea.segment_index as int,
        ea.offset as int,
    ));
    assert(read_int(vm1, ids, "elm_size"@) == read_int(vm2, ids, "elm_size"@));
    assert(mem_get(vm1.memory, pa.segment_index as int, pa.offset as int) == mem_get(
        vm2.memory,
        pa.segment_index as int,
        pa.offset as int,
    ));
    let base = lower_hint_base(vm2, ids);
    assert(lower_hint_base(vm1, ids) == base);
    let e = read_int(vm2, ids, "elm_size"@)->Ok_0;
    let n1 = read_int(vm1, ids, "n_elms"@)->Ok_0;
    let n2 = read_int(vm2, ids, "n_elms"@)->Ok_0;
    if na == ka {
        assert(n1 == k1 && n2 == k2);
    } else {
        assert(mem_get(vm1.memory, na.segment_index as int, na.offset as int) == mem_get(
            vm2.memory,
            na.segment_index as int,
            na.offset as int,
        ));
        assert(n1 == n2);
    }
    let r1 = search_sorted_lower_outcome(vm1, scopes, ids)->Ok_0;
    let r2 = search_sorted_lower_outcome(vm2, scopes, ids)->Ok_0;
    law_search_sorted_lower_index_is_lower_bound(vm1, scopes, ids);
    law_search_sorted_lower_index_is_lower_bound(vm2, scopes, ids);
    if n1 > 0 {
        assert(search_sorted_lower_outcome(vm1, scopes, ids) == lower_scan(vm1.memory, base, e, n1, k1));
        assert(search_sorted_lower_outcome(vm2, scopes, ids) == lower_scan(vm2.memory, base, e, n2, k2));
        lemma_lower_scan_ok(vm1.memory, base, e, n1, k1);
        lemma_lower_scan_ok(vm2.memory, base, e, n2, k2);
        let p = stops_lower(vm1.memory, base, e, k1);
        let q = stops_lower(vm2.memory, base, e, k2);
        assert forall|j: int| 0 <= j < n1 && #[trigger] q(j) implies p(j) by {
            let off = crate::element_search::element_offset(base, e, j);
            if !(base.segment_index as int == ka.segment_index && off == ka.offset) {
                assert(element_key(vm1.memory, base, e, j) == element_key(vm2.memory, base, e, j));
            }
        }
        lemma_first_index_earlier(p, q, n1, n2);
    }
    if k1 == k2 {
        assert forall|s: int, o: int| #[trigger] mem_get(vm1.memory, s, o) == mem_get(vm2.memory, s, o) by {
            if s == ka.segment_index && o == ka.offset {
            }
        }
        assert forall|s: int| 0 <= s < vm1.memory.len() implies #[trigger] vm1.memory[s] =~= vm2.memory[s] by {
            assert forall|o: int| 0 <= o < vm1.memory[s].len() implies vm1.memory[s][o] == vm2.memory[s][o] by {
                assert(mem_get(vm1.memory, s, o) == mem_get(vm2.memory, s, o));
            }
        }
        assert(vm1.memory =~= vm2.memory);
        assert(vm1 == vm2);
    }
}

} // verus!
