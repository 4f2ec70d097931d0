use std::collections::HashMap;

use cairo_hints::element_search::find_element;
use cairo_hints::errors::{MemoryError, VirtualMachineError};
use cairo_hints::integer::Integer;
use cairo_hints::memory::{MaybeRelocatable, Relocatable};
use cairo_hints::vm::{ApTracking, ExecutionScopesProxy, HintReference, IdsData, VMProxy};

const FP_OFFSET_START: usize = 4;

fn integer(v: i64) -> Integer {
    Integer::from_i64(v)
}

fn int_value(v: i64) -> MaybeRelocatable {
    MaybeRelocatable::Int(integer(v))
}

fn reloc(segment: usize, offset: usize) -> MaybeRelocatable {
    MaybeRelocatable::RelocatableValue(Relocatable::new(segment, offset))
}

/// The references of `names`: the i-th name sits i + 1 cells below the frame pointer.
fn ids_data(names: &[&str]) -> IdsData {
    let mut ids = IdsData::new();
    for (i, name) in names.iter().enumerate() {
        ids.insert(name, HintReference::new_simple(-(i as i32) - 1));
    }
    ids
}

/// array_ptr = (1,0) -> [Struct{1, 2}, Struct{3, 4}], elm_size = 2, n_elms = 2,
/// key = 3, index at (0,3) not written yet.
fn init_vm_ids_data(values_to_override: HashMap<String, MaybeRelocatable>) -> (VMProxy, IdsData) {
    let mut vm = VMProxy::new();
    vm.run_context.fp = Relocatable::new(0, FP_OFFSET_START);
    for _ in 0..2 {
        vm.memory.add_segment();
    }
    let addresses = vec![
        Relocatable::new(0, 0),
        Relocatable::new(0, 1),
        Relocatable::new(0, 2),
        Relocatable::new(0, 4),
        Relocatable::new(1, 0),
        Relocatable::new(1, 1),
        Relocatable::new(1, 2),
        Relocatable::new(1, 3),
    ];
    let default_values = vec![
        ("array_ptr", reloc(1, 0)),
        ("elm_size", int_value(2)),
        ("n_elms", int_value(2)),
        ("key", int_value(3)),
        ("arr[0].a", int_value(1)),
        ("arr[0].b", int_value(2)),
        ("arr[1].a", int_value(3)),
        ("arr[1].b", int_value(4)),
    ];
    for (i, memory_cell) in addresses.iter().enumerate() {
        let value_to_insert = values_to_override
            .get(default_values[i].0)
            .unwrap_or(&default_values[i].1);
        vm.memory
            .insert(memory_cell, value_to_insert)
            .expect("Unexpected memory insert fail");
    }
    let mut ids = IdsData::new();
    for (i, name) in ["array_ptr", "elm_size", "n_elms", "index", "key"].iter().enumerate() {
        ids.insert(name, HintReference::new_simple(i as i32 - FP_OFFSET_START as i32));
    }
    (vm, ids)
}

fn run_find_element(
    vm: &mut VMProxy,
    scopes: &mut ExecutionScopesProxy,
    ids: &IdsData,
) -> Result<(), VirtualMachineError> {
    find_element(vm, scopes, ids, &ApTracking::new())
}

fn run_search_sorted_lower(
    vm: &mut VMProxy,
    scopes: &mut ExecutionScopesProxy,
    ids: &IdsData,
) -> Result<(), VirtualMachineError> {
    cairo_hints::element_search::search_sorted_lower(vm, scopes, ids, &ApTracking::new())
}

#[test]
fn element_found_by_search() {
    let (mut vm, ids_data) = init_vm_ids_data(HashMap::new());
    assert_eq!(
        run_find_element(&mut vm, &mut ExecutionScopesProxy::new(), &ids_data),
        Ok(())
    );
    assert_eq!(vm.memory.get(&Relocatable::new(0, 3)), Some(int_value(1)))
}

#[test]
fn element_found_by_oracle() {
    let (mut vm, ids_data) = init_vm_ids_data(HashMap::new());
    let mut exec_scopes = ExecutionScopesProxy::new();
    exec_scopes.assign_or_update_variable("find_element_index", integer(1));
    assert_eq!(run_find_element(&mut vm, &mut exec_scopes, &ids_data), Ok(()));
    assert_eq!(vm.memory.get(&Relocatable::new(0, 3)), Some(int_value(1)))
}

#[test]
fn element_not_found_search() {
    let (mut vm, ids_data) =
        init_vm_ids_data(HashMap::from([("key".to_string(), int_value(7))]));
    assert_eq!(
        run_find_element(&mut vm, &mut ExecutionScopesProxy::new(), &ids_data),
        Err(VirtualMachineError::NoValueForKey(integer(7)))
    );
}

#[test]
fn element_not_found_oracle() {
    let (mut vm, ids_data) = init_vm_ids_data(HashMap::new());
    let mut exec_scopes = ExecutionScopesProxy::new();
    exec_scopes.assign_or_update_variable("find_element_index", integer(2));
    assert_eq!(
        run_find_element(&mut vm, &mut exec_scopes, &ids_data),
        Err(VirtualMachineError::KeyNotFound)
    );
}

#[test]
fn find_elm_failed_ids_get_addres() {
    // The default memory, but `key` has no reference, so its address cannot be had.
    let (mut vm, _) = init_vm_ids_data(HashMap::new());
    let mut ids_data = IdsData::new();
    for (i, name) in ["array_ptr", "elm_size", "n_elms", "index"].iter().enumerate() {
        ids_data.insert(name, HintReference::new_simple(i as i32 - FP_OFFSET_START as i32));
    }
    assert_eq!(
        run_find_element(&mut vm, &mut ExecutionScopesProxy::new(), &ids_data),
        Err(VirtualMachineError::FailedToGetIds)
    );
}

#[test]
fn find_elm_failed_ids_get_from_mem() {
    let mut vm = VMProxy::new();
    vm.run_context.fp = Relocatable::new(0, 5);
    let ids_data = ids_data(&["array_ptr", "elm_size", "n_elms", "index", "key"]);
    assert_eq!(
        run_find_element(&mut vm, &mut ExecutionScopesProxy::new(), &ids_data),
        Err(VirtualMachineError::ExpectedInteger(reloc(0, 0)))
    );
}

#[test]
fn find_elm_not_int_elm_size() {
    let (mut vm, ids_data) =
        init_vm_ids_data(HashMap::from([("elm_size".to_string(), reloc(7, 8))]));
    assert_eq!(
        run_find_element(&mut vm, &mut ExecutionScopesProxy::new(), &ids_data),
        Err(VirtualMachineError::ExpectedInteger(reloc(0, 1)))
    );
}

#[test]
fn find_elm_zero_elm_size() {
    let (mut vm, ids_data) =
        init_vm_ids_data(HashMap::from([("elm_size".to_string(), int_value(0))]));
    assert_eq!(
        run_find_element(&mut vm, &mut ExecutionScopesProxy::new(), &ids_data),
        Err(VirtualMachineError::ValueOutOfRange(integer(0)))
    );
}

#[test]
fn find_elm_negative_elm_size() {
    let (mut vm, ids_data) =
        init_vm_ids_data(HashMap::from([("elm_size".to_string(), int_value(-1))]));
    assert_eq!(
        run_find_element(&mut vm, &mut ExecutionScopesProxy::new(), &ids_data),
        Err(VirtualMachineError::ValueOutOfRange(integer(-1)))
    );
}

#[test]
fn find_elm_not_int_n_elms() {
    let relocatable = reloc(0, 2);
    let (mut vm, ids_data) =
        init_vm_ids_data(HashMap::from([("n_elms".to_string(), relocatable.clone())]));
    assert_eq!(
        run_find_element(&mut vm, &mut ExecutionScopesProxy::new(), &ids_data),
        Err(VirtualMachineError::ExpectedInteger(relocatable))
    );
}

#[test]
fn find_elm_negative_n_elms() {
    let (mut vm, ids_data) =
        init_vm_ids_data(HashMap::from([("n_elms".to_string(), int_value(-1))]));
    assert_eq!(
        run_find_element(&mut vm, &mut ExecutionScopesProxy::new(), &ids_data),
        Err(VirtualMachineError::ValueOutOfRange(integer(-1)))
    );
}

#[test]
fn find_elm_empty_scope() {
    let (mut vm, ids_data) = init_vm_ids_data(HashMap::new());
    assert_eq!(
        run_find_element(&mut vm, &mut ExecutionScopesProxy::new(), &ids_data),
        Ok(())
    );
}

#[test]
fn find_elm_n_elms_gt_max_size() {
    let (mut vm, ids_data) = init_vm_ids_data(HashMap::new());
    let mut exec_scopes = ExecutionScopesProxy::new();
    exec_scopes.assign_or_update_variable("find_element_max_size", integer(1));
    assert_eq!(
        run_find_element(&mut vm, &mut exec_scopes, &ids_data),
        Err(VirtualMachineError::FindElemMaxSize(integer(1), integer(2)))
    );
}

#[test]
fn find_elm_key_not_int() {
    let relocatable = reloc(0, 4);
    let (mut vm, ids_data) =
        init_vm_ids_data(HashMap::from([("key".to_string(), relocatable.clone())]));
    assert_eq!(
        run_find_element(&mut vm, &mut ExecutionScopesProxy::new(), &ids_data),
        Err(VirtualMachineError::ExpectedInteger(relocatable))
    );
}

#[test]
fn search_sorted_lower() {
    let (mut vm, ids_data) = init_vm_ids_data(HashMap::new());
    assert_eq!(
        run_search_sorted_lower(&mut vm, &mut ExecutionScopesProxy::new(), &ids_data),
        Ok(())
    );
    assert_eq!(vm.memory.get(&Relocatable::new(0, 3)), Some(int_value(1)))
}

#[test]
fn search_sorted_lower_no_matches() {
    let (mut vm, ids_data) =
        init_vm_ids_data(HashMap::from([("key".to_string(), int_value(7))]));
    assert_eq!(
        run_search_sorted_lower(&mut vm, &mut ExecutionScopesProxy::new(), &ids_data),
        Ok(())
    );
    assert_eq!(vm.memory.get(&Relocatable::new(0, 3)), Some(int_value(2)))
}

#[test]
fn search_sorted_lower_failed_to_get_ids() {
    let (mut vm, ids_data) = init_vm_ids_data(HashMap::new());
    vm.run_context.fp = Relocatable::new(0, 12);
    assert_eq!(
        run_search_sorted_lower(&mut vm, &mut ExecutionScopesProxy::new(), &ids_data),
        Err(VirtualMachineError::FailedToGetIds)
    );
}

#[test]
fn search_sorted_lower_not_int_elm_size() {
    let (mut vm, ids_data) =
        init_vm_ids_data(HashMap::from([("elm_size".to_string(), reloc(7, 8))]));
    assert_eq!(
        run_search_sorted_lower(&mut vm, &mut ExecutionScopesProxy::new(), &ids_data),
        Err(VirtualMachineError::ExpectedInteger(reloc(0, 1)))
    );
}

#[test]
fn search_sorted_lower_zero_elm_size() {
    let (mut vm, ids_data) =
        init_vm_ids_data(HashMap::from([("elm_size".to_string(), int_value(0))]));
    assert_eq!(
        run_search_sorted_lower(&mut vm, &mut ExecutionScopesProxy::new(), &ids_data),
        Err(VirtualMachineError::ValueOutOfRange(integer(0)))
    );
}

#[test]
fn search_sorted_lower_negative_elm_size() {
    let (mut vm, ids_data) =
        init_vm_ids_data(HashMap::from([("elm_size".to_string(), int_value(-1))]));
    assert_eq!(
        run_search_sorted_lower(&mut vm, &mut ExecutionScopesProxy::new(), &ids_data),
        Err(VirtualMachineError::ValueOutOfRange(integer(-1)))
    );
}

#[test]
fn search_sorted_lower_not_int_n_elms() {
    let (mut vm, ids_data) =
        init_vm_ids_data(HashMap::from([("n_elms".to_string(), reloc(1, 2))]));
    assert_eq!(
        run_search_sorted_lower(&mut vm, &mut ExecutionScopesProxy::new(), &ids_data),
        Err(VirtualMachineError::ExpectedInteger(reloc(0, 2)))
    );
}

#[test]
fn search_sorted_lower_negative_n_elms() {
    let (mut vm, ids_data) =
        init_vm_ids_data(HashMap::from([("n_elms".to_string(), int_value(-1))]));
    assert_eq!(
        run_search_sorted_lower(&mut vm, &mut ExecutionScopesProxy::new(), &ids_data),
        Err(VirtualMachineError::ValueOutOfRange(integer(-1)))
    );
}

#[test]
fn search_sorted_lower_empty_scope() {
    let (mut vm, ids_data) = init_vm_ids_data(HashMap::new());
    assert_eq!(
        run_search_sorted_lower(&mut vm, &mut ExecutionScopesProxy::new(), &ids_data),
        Ok(())
    );
}

#[test]
fn search_sorted_lower_n_elms_gt_max_size() {
    let (mut vm, ids_data) = init_vm_ids_data(HashMap::new());
    let mut exec_scopes = ExecutionScopesProxy::new();
    exec_scopes.assign_or_update_variable("find_element_max_size", integer(1));
    assert_eq!(
        run_search_sorted_lower(&mut vm, &mut exec_scopes, &ids_data),
        Err(VirtualMachineError::FindElemMaxSize(integer(1), integer(2)))
    );
}

// ---------------------------------------------------------------------------------
// Further cases
// ---------------------------------------------------------------------------------

#[test]
fn oracle_index_is_removed_from_scope_after_write() {
    let (mut vm, ids_data) = init_vm_ids_data(HashMap::new());
    let mut exec_scopes = ExecutionScopesProxy::new();
    exec_scopes.assign_or_update_variable("find_element_index", integer(1));
    assert_eq!(run_find_element(&mut vm, &mut exec_scopes, &ids_data), Ok(()));
    assert_eq!(
        exec_scopes.get_int("find_element_index"),
        Err(VirtualMachineError::VariableNotInScope("find_element_index".to_string()))
    );
}

#[test]
fn oracle_index_kept_in_scope_on_error() {
    let (mut vm, ids_data) = init_vm_ids_data(HashMap::new());
    let mut exec_scopes = ExecutionScopesProxy::new();
    exec_scopes.assign_or_update_variable("find_element_index", integer(2));
    assert!(run_find_element(&mut vm, &mut exec_scopes, &ids_data).is_err());
    assert_eq!(exec_scopes.get_int("find_element_index"), Ok(integer(2)));
    assert_eq!(vm.memory.get(&Relocatable::new(0, 3)), None);
}

#[test]
fn oracle_index_pointing_at_other_key() {
    let (mut vm, ids_data) = init_vm_ids_data(HashMap::new());
    let mut exec_scopes = ExecutionScopesProxy::new();
    exec_scopes.assign_or_update_variable("find_element_index", integer(0));
    assert_eq!(
        run_find_element(&mut vm, &mut exec_scopes, &ids_data),
        Err(VirtualMachineError::InvalidIndex(integer(0), integer(3), integer(1)))
    );
}

#[test]
fn oracle_index_negative() {
    let (mut vm, ids_data) = init_vm_ids_data(HashMap::new());
    let mut exec_scopes = ExecutionScopesProxy::new();
    exec_scopes.assign_or_update_variable("find_element_index", integer(-1));
    assert_eq!(
        run_find_element(&mut vm, &mut exec_scopes, &ids_data),
        Err(VirtualMachineError::BigintToUsizeFail)
    );
}

#[test]
fn find_elm_n_elms_beyond_i32() {
    let (mut vm, ids_data) =
        init_vm_ids_data(HashMap::from([("n_elms".to_string(), int_value(1i64 << 31))]));
    assert_eq!(
        run_find_element(&mut vm, &mut ExecutionScopesProxy::new(), &ids_data),
        Err(VirtualMachineError::OffsetExceeded(integer(1i64 << 31)))
    );
}

#[test]
fn find_elm_array_ptr_not_address() {
    let (mut vm, ids_data) =
        init_vm_ids_data(HashMap::from([("array_ptr".to_string(), int_value(5))]));
    assert_eq!(
        run_find_element(&mut vm, &mut ExecutionScopesProxy::new(), &ids_data),
        Err(VirtualMachineError::ExpectedRelocatable(reloc(0, 0)))
    );
}

#[test]
fn find_elm_hole_before_key() {
    // The first element's key cell holds an address, not an integer.
    let (mut vm, ids_data) =
        init_vm_ids_data(HashMap::from([("arr[0].a".to_string(), reloc(1, 1))]));
    assert_eq!(
        run_find_element(&mut vm, &mut ExecutionScopesProxy::new(), &ids_data),
        Err(VirtualMachineError::KeyNotFound)
    );
}

#[test]
fn find_elm_first_of_two_matches() {
    // Both elements hold the key 3: the first one is reported.
    let (mut vm, ids_data) =
        init_vm_ids_data(HashMap::from([("arr[0].a".to_string(), int_value(3))]));
    assert_eq!(
        run_find_element(&mut vm, &mut ExecutionScopesProxy::new(), &ids_data),
        Ok(())
    );
    assert_eq!(vm.memory.get(&Relocatable::new(0, 3)), Some(int_value(0)));
}

#[test]
fn find_elm_index_already_written_differently() {
    let (mut vm, ids_data) = init_vm_ids_data(HashMap::new());
    vm.memory.insert(&Relocatable::new(0, 3), &int_value(9)).unwrap();
    assert_eq!(
        run_find_element(&mut vm, &mut ExecutionScopesProxy::new(), &ids_data),
        Err(VirtualMachineError::MemoryError(MemoryError::InconsistentMemory(
            reloc(0, 3),
            int_value(9),
            int_value(1)
        )))
    );
}

#[test]
fn find_elm_big_key_found() {
    // A key that needs two limbs.
    let big = Integer::from_parts(false, vec![5, 1]);
    let (mut vm, ids_data) = init_vm_ids_data(HashMap::from([
        ("key".to_string(), MaybeRelocatable::Int(big.clone())),
        ("arr[1].a".to_string(), MaybeRelocatable::Int(big)),
    ]));
    assert_eq!(
        run_find_element(&mut vm, &mut ExecutionScopesProxy::new(), &ids_data),
        Ok(())
    );
    assert_eq!(vm.memory.get(&Relocatable::new(0, 3)), Some(int_value(1)));
}

#[test]
fn search_sorted_lower_first_element() {
    let (mut vm, ids_data) =
        init_vm_ids_data(HashMap::from([("key".to_string(), int_value(-4))]));
    assert_eq!(
        run_search_sorted_lower(&mut vm, &mut ExecutionScopesProxy::new(), &ids_data),
        Ok(())
    );
    assert_eq!(vm.memory.get(&Relocatable::new(0, 3)), Some(int_value(0)));
}

#[test]
fn search_sorted_lower_key_between_elements() {
    // Keys are 1 and 3: the lower bound of 2 is the second element.
    let (mut vm, ids_data) =
        init_vm_ids_data(HashMap::from([("key".to_string(), int_value(2))]));
    assert_eq!(
        run_search_sorted_lower(&mut vm, &mut ExecutionScopesProxy::new(), &ids_data),
        Ok(())
    );
    assert_eq!(vm.memory.get(&Relocatable::new(0, 3)), Some(int_value(1)));
}

#[test]
fn search_sorted_lower_agrees_with_find_element() {
    // On a sorted array that holds the key, both hints write the same index.
    let (mut vm1, ids1) = init_vm_ids_data(HashMap::new());
    let (mut vm2, ids2) = init_vm_ids_data(HashMap::new());
    assert_eq!(run_find_element(&mut vm1, &mut ExecutionScopesProxy::new(), &ids1), Ok(()));
    assert_eq!(
        run_search_sorted_lower(&mut vm2, &mut ExecutionScopesProxy::new(), &ids2),
        Ok(())
    );
    assert_eq!(
        vm1.memory.get(&Relocatable::new(0, 3)),
        vm2.memory.get(&Relocatable::new(0, 3))
    );
}

#[test]
fn search_sorted_lower_hole_in_array() {
    let (mut vm, ids_data) =
        init_vm_ids_data(HashMap::from([("arr[0].a".to_string(), reloc(1, 1))]));
    assert_eq!(
        run_search_sorted_lower(&mut vm, &mut ExecutionScopesProxy::new(), &ids_data),
        Err(VirtualMachineError::ExpectedInteger(reloc(1, 0)))
    );
}

#[test]
fn search_sorted_lower_array_ptr_not_address() {
    let (mut vm, ids_data) =
        init_vm_ids_data(HashMap::from([("array_ptr".to_string(), int_value(5))]));
    assert_eq!(
        run_search_sorted_lower(&mut vm, &mut ExecutionScopesProxy::new(), &ids_data),
        Err(VirtualMachineError::ExpectedRelocatable(reloc(0, 0)))
    );
}

/// The default references, with `index` at `index_offset` from the frame pointer and
/// without the names in `missing`.
fn ids_with(index_offset: i32, missing: &[&str]) -> IdsData {
    let mut ids = IdsData::new();
    for (i, name) in ["array_ptr", "elm_size", "n_elms", "index", "key"].iter().enumerate() {
        if missing.contains(name) {
            continue;
        }
        let offset = if *name == "index" { index_offset } else { i as i32 - FP_OFFSET_START as i32 };
        ids.insert(name, HintReference::new_simple(offset));
    }
    ids
}

#[test]
fn search_sorted_lower_writes_past_segment_end() {
    let (mut vm, _) = init_vm_ids_data(HashMap::new());
    // `index` lies far past the last cell of its segment: the segment grows to hold it.
    let ids_data = ids_with(100, &[]);
    assert_eq!(
        run_search_sorted_lower(&mut vm, &mut ExecutionScopesProxy::new(), &ids_data),
        Ok(())
    );
    assert_eq!(vm.memory.get(&Relocatable::new(0, 104)), Some(int_value(1)));
}

#[test]
fn find_elm_search_writes_one_past_segment_end() {
    // Segment 0 has cells 0..=4; `index` is the fresh cell (0,5).
    let (mut vm, _) = init_vm_ids_data(HashMap::new());
    let ids_data = ids_with(1, &[]);
    assert_eq!(
        run_find_element(&mut vm, &mut ExecutionScopesProxy::new(), &ids_data),
        Ok(())
    );
    assert_eq!(vm.memory.get(&Relocatable::new(0, 5)), Some(int_value(1)));
}

#[test]
fn find_elm_oracle_writes_one_past_segment_end() {
    let (mut vm, _) = init_vm_ids_data(HashMap::new());
    let ids_data = ids_with(1, &[]);
    let mut exec_scopes = ExecutionScopesProxy::new();
    exec_scopes.assign_or_update_variable("find_element_index", integer(1));
    assert_eq!(run_find_element(&mut vm, &mut exec_scopes, &ids_data), Ok(()));
    assert_eq!(vm.memory.get(&Relocatable::new(0, 5)), Some(int_value(1)));
}

#[test]
fn search_sorted_lower_writes_one_past_segment_end() {
    let (mut vm, _) = init_vm_ids_data(HashMap::new());
    let ids_data = ids_with(1, &[]);
    assert_eq!(
        run_search_sorted_lower(&mut vm, &mut ExecutionScopesProxy::new(), &ids_data),
        Ok(())
    );
    assert_eq!(vm.memory.get(&Relocatable::new(0, 5)), Some(int_value(1)));
}

#[test]
fn find_elm_reads_n_elms_before_array_ptr() {
    // `n_elms` has no reference and `array_ptr` holds an integer: `n_elms` fails first.
    let (mut vm, _) =
        init_vm_ids_data(HashMap::from([("array_ptr".to_string(), int_value(5))]));
    let ids_data = ids_with(-1, &["n_elms"]);
    assert_eq!(
        run_find_element(&mut vm, &mut ExecutionScopesProxy::new(), &ids_data),
        Err(VirtualMachineError::FailedToGetIds)
    );
}

#[test]
fn search_sorted_lower_empty_array_does_not_read_key() {
    // With no element the key is never read.
    let (mut vm, _) = init_vm_ids_data(HashMap::from([("n_elms".to_string(), int_value(0))]));
    let ids_data = ids_with(-1, &["key"]);
    assert_eq!(
        run_search_sorted_lower(&mut vm, &mut ExecutionScopesProxy::new(), &ids_data),
        Ok(())
    );
    assert_eq!(vm.memory.get(&Relocatable::new(0, 3)), Some(int_value(0)));
}

#[test]
fn search_sorted_lower_checks_elm_size_before_reading_n_elms() {
    let (mut vm, _) = init_vm_ids_data(HashMap::from([("elm_size".to_string(), int_value(0))]));
    let ids_data = ids_with(-1, &["n_elms"]);
    assert_eq!(
        run_search_sorted_lower(&mut vm, &mut ExecutionScopesProxy::new(), &ids_data),
        Err(VirtualMachineError::ValueOutOfRange(integer(0)))
    );
}

#[test]
fn search_sorted_lower_reads_first_element_before_key() {
    // The first element holds an address and `key` has no reference: the element's
    // read fails first.
    let (mut vm, _) =
        init_vm_ids_data(HashMap::from([("arr[0].a".to_string(), reloc(1, 1))]));
    let ids_data = ids_with(-1, &["key"]);
    assert_eq!(
        run_search_sorted_lower(&mut vm, &mut ExecutionScopesProxy::new(), &ids_data),
        Err(VirtualMachineError::ExpectedInteger(reloc(1, 0)))
    );
}

#[test]
fn oracle_index_does_not_read_n_elms() {
    // With an index in the scope, `n_elms` is not read: it may hold an address.
    let (mut vm, ids_data) =
        init_vm_ids_data(HashMap::from([("n_elms".to_string(), reloc(0, 2))]));
    let mut exec_scopes = ExecutionScopesProxy::new();
    exec_scopes.assign_or_update_variable("find_element_index", integer(1));
    assert_eq!(run_find_element(&mut vm, &mut exec_scopes, &ids_data), Ok(()));
    assert_eq!(vm.memory.get(&Relocatable::new(0, 3)), Some(int_value(1)));
}

#[test]
fn memory_write_to_unallocated_segment() {
    let mut vm = VMProxy::new();
    assert_eq!(
        vm.memory.insert(&Relocatable::new(2, 0), &int_value(1)),
        Err(MemoryError::UnallocatedSegment(2, 0))
    );
}

#[test]
fn memory_write_once_same_value() {
    let mut vm = VMProxy::new();
    vm.memory.add_segment();
    assert_eq!(vm.memory.insert(&Relocatable::new(0, 3), &int_value(1)), Ok(()));
    assert_eq!(vm.memory.insert(&Relocatable::new(0, 3), &int_value(1)), Ok(()));
    assert_eq!(vm.memory.get(&Relocatable::new(0, 3)), Some(int_value(1)));
    assert_eq!(vm.memory.get(&Relocatable::new(0, 2)), None);
}

#[test]
fn search_sorted_lower_grows_with_key() {
    let mut previous: i64 = 0;
    for key in [-4i64, 1, 2, 3, 4, 9] {
        let (mut vm, ids_data) =
            init_vm_ids_data(HashMap::from([("key".to_string(), int_value(key))]));
        assert_eq!(
            run_search_sorted_lower(&mut vm, &mut ExecutionScopesProxy::new(), &ids_data),
            Ok(())
        );
        let written = vm.memory.get(&Relocatable::new(0, 3));
        let index = (0..=2i64)
            .find(|i| written == Some(int_value(*i)))
            .expect("an index between 0 and n_elms");
        assert!(index >= previous);
        previous = index;
    }
    assert_eq!(previous, 2);
}

#[test]
fn fits_checks_accept_the_default_inputs() {
    let (vm, ids_data) = init_vm_ids_data(HashMap::new());
    let scopes = ExecutionScopesProxy::new();
    assert!(cairo_hints::element_search::find_element_fits_check(
        &vm,
        &scopes,
        &ids_data,
        &ApTracking::new()
    ));
    assert!(cairo_hints::element_search::search_sorted_lower_fits_check(
        &vm,
        &scopes,
        &ids_data,
        &ApTracking::new()
    ));
}

#[test]
fn find_element_fits_check_detects_overflow() {
    // Element `usize::MAX` of 2-cell elements lies beyond any address.
    let (vm, ids_data) = init_vm_ids_data(HashMap::new());
    let mut scopes = ExecutionScopesProxy::new();
    scopes.assign_or_update_variable("find_element_index", Integer::from_usize(usize::MAX));
    assert!(!cairo_hints::element_search::find_element_fits_check(
        &vm,
        &scopes,
        &ids_data,
        &ApTracking::new()
    ));
}

#[test]
fn search_sorted_lower_fits_check_detects_overflow() {
    // One element below the key at (1,1), elements `usize::MAX` cells apart: the
    // address after it does not fit.
    let (vm, ids_data) = init_vm_ids_data(HashMap::from([
        ("array_ptr".to_string(), reloc(1, 1)),
        ("elm_size".to_string(), MaybeRelocatable::Int(Integer::from_usize(usize::MAX))),
        ("n_elms".to_string(), int_value(1)),
    ]));
    assert!(!cairo_hints::element_search::search_sorted_lower_fits_check(
        &vm,
        &ExecutionScopesProxy::new(),
        &ids_data,
        &ApTracking::new()
    ));
}
