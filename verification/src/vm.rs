use vstd::prelude::*;
use vstd::hash_map::StringHashMap;

use crate::errors::{VirtualMachineError, VmErrorView};
use crate::integer::Integer;
use crate::memory::{Memory, MemoryView, Relocatable};

verus! {

/// Where a variable of a hint lives: `offset1` cells from the frame pointer.
#[derive(Clone, Copy, Debug, PartialEq, Eq, Structural)]
pub struct HintReference {
    pub offset1: i32,
}

impl HintReference {
    /// The reference to the cell `offset1` cells from the frame pointer.
    pub fn new_simple(offset1: i32) -> (r: HintReference)
        ensures
            r.offset1 == offset1,
    {
        HintReference { offset1 }
    }
}

/// The allocation-pointer tracking data of a hint. References that are relative to
/// the frame pointer do not depend on it.
#[derive(Clone, Copy, Debug, PartialEq, Eq, Structural)]
pub struct ApTracking {
    pub group: usize,
    pub offset: usize,
}

impl ApTracking {
    /// Tracking data of group 0, offset 0.
    pub fn new() -> (r: ApTracking)
        ensures
            r.group == 0 && r.offset == 0,
    {
        ApTracking { group: 0, offset: 0 }
    }
}

/// The registers of the machine that the hints read.
#[derive(Clone, Copy, Debug, PartialEq, Eq, Structural)]
pub struct RunContext {
    pub fp: Relocatable,
}

/// The part of the machine that a hint reads and writes: memory and frame pointer.
pub struct VMProxy {
    pub memory: Memory,
    pub run_context: RunContext,
}

/// The mathematical form of a [`VMProxy`].
pub struct VmView {
    pub memory: MemoryView,
    pub fp: Relocatable,
}

impl View for VMProxy {
    type V = VmView;

    open spec fn view(&self) -> VmView {
        VmView { memory: self.memory@, fp: self.run_context.fp }
    }
}

impl VMProxy {
    /// A machine with no memory segment and the frame pointer at (0, 0).
    pub fn new() -> (r: VMProxy)
        ensures
            r@.memory == Seq::<Seq<Option<crate::memory::MemValue>>>::empty(),
            r@.fp == (Relocatable { segment_index: 0, offset: 0 }),
    {
        VMProxy { memory: Memory::new(), run_context: RunContext { fp: Relocatable::new(0, 0) } }
    }
}

/// The references of the variables that a hint names.
pub struct IdsData {
    refs: StringHashMap<HintReference>,
}

impl View for IdsData {
    type V = Map<Seq<char>, HintReference>;

    closed spec fn view(&self) -> Map<Seq<char>, HintReference> {
        self.refs@
    }
}

impl IdsData {
    /// A table with no variable.
    pub fn new() -> (r: IdsData)
        ensures
            r@ == Map::<Seq<char>, HintReference>::empty(),
    {
        IdsData { refs: StringHashMap::new() }
    }

    /// Sets the reference of the variable `name`.
    pub fn insert(&mut self, name: &str, reference: HintReference)
        ensures
            final(self)@ == old(self)@.insert(name@, reference),
    {
        self.refs.insert(name.to_owned(), reference);
    }

    /// The reference of the variable `name`, if it has one.
    pub fn get(&self, name: &str) -> (r: Option<HintReference>)
        ensures
            r == (if self@.contains_key(name@) {
                Some(self@[name@])
            } else {
                None::<HintReference>
            }),
    {
        match self.refs.get(name) {
            Some(reference) => Some(*reference),
            None => None,
        }
    }
}

/// The integer variables of the execution scope that the hints consult.
pub struct ExecutionScopesProxy {
    vars: StringHashMap<Integer>,
}

impl View for ExecutionScopesProxy {
    type V = Map<Seq<char>, int>;

    closed spec fn view(&self) -> Map<Seq<char>, int> {
        self.vars@.map_values(|v: Integer| v@)
    }
}

impl ExecutionScopesProxy {
    /// A scope with no variable.
    pub fn new() -> (r: ExecutionScopesProxy)
        ensures
            r@ == Map::<Seq<char>, int>::empty(),
    {
        let r = ExecutionScopesProxy { vars: StringHashMap::new() };
        proof {
            assert(r@ =~= Map::<Seq<char>, int>::empty());
        }
        r
    }

    /// Sets the variable `name` to `value`.
    pub fn assign_or_update_variable(&mut self, name: &str, value: Integer)
        ensures
            final(self)@ == old(self)@.insert(name@, value@),
    {
        self.vars.insert(name.to_owned(), value);
        proof {
            assert(self@ =~= old(self)@.insert(name@, value@));
        }
    }

    /// The integer under `name`; an error that names the variable where there is none.
    pub fn get_int(&self, name: &str) -> (r: Result<Integer, VirtualMachineError>)
        ensures
            self@.contains_key(name@) ==> r is Ok && r->Ok_0@ == self@[name@],
            !self@.contains_key(name@) ==> r is Err && r->Err_0@ == VmErrorView::VariableNotInScope(
                name@,
            ),
    {
        match self.vars.get(name) {
            Some(v) => Ok(v.clone()),
            None => Err(VirtualMachineError::VariableNotInScope(name.to_owned())),
        }
    }

    /// Removes the variable `name`, if there is one.
    pub fn delete_variable(&mut self, name: &str)
        ensures
            final(self)@ == old(self)@.remove(name@),
    {
        self.vars.remove(name);
        proof {
            assert(self@ =~= old(self)@.remove(name@));
        }
    }
}

} // verus!
