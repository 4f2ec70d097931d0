# cairo_hints

Two hints of a Cairo virtual machine, verified with Verus:

- `find_element` finds the element of an array in memory whose first cell holds a
  key (or checks an index given in the execution scope) and writes its index;
- `search_sorted_lower` writes the index of the first element whose first cell holds
  a value at least the key.

Layout of `src/`:

- `integer.rs`: integers of any size (sign and base-2^64 limbs) with comparisons and
  conversions, specified over `int`;
- `memory.rs`: addresses, memory values and the write-once segmented memory;
- `errors.rs`: the errors the hints report, with their mathematical forms;
- `vm.rs`: frame pointer, variable references and the execution scope;
- `hint_utils.rs`: reading and writing the variables of a hint;
- `element_search.rs`: the two scans, the two hints with their specifications, and
  the functions that test the hints' preconditions;
- `laws.rs`: properties of the scans and hints, proved.

`app/` converts between `num_bigint::BigInt` and the library's `Integer`.
