use vstd::prelude::*;
use crate::mtable::LocationType;

verus! {

/// The type of an initial memory or global value.
#[derive(Clone, Copy, Debug, PartialEq, Eq, Structural)]
pub enum ValueType {
    I64,
    I32,
    F32,
    F64,
    FuncRef,
    ExternRef,
}

/// One entry of the initial-memory table: a heap word range or a global.
#[derive(Clone, Copy, Debug, PartialEq, Eq, Structural)]
pub struct IMTableEntry {
    pub ltype: LocationType,
    pub is_mutable: bool,
    pub start_offset: u32,
    pub end_offset: u32,
    pub vtype: ValueType,
    pub value: u64,
}

/// The initial-memory table.
#[derive(Debug)]
pub struct IMTable(Vec<IMTableEntry>);

impl View for IMTable {
    type V = Seq<IMTableEntry>;

    closed spec fn view(&self) -> Seq<IMTableEntry> {
        self.0@
    }
}

/// The entry that `IMTable::push` appends.
pub open spec fn imtable_entry(
    is_global: bool,
    is_mutable: bool,
    start_offset: u32,
    end_offset: u32,
    vtype: ValueType,
    value: u64,
) -> IMTableEntry {
    IMTableEntry {
        ltype: if is_global {
            LocationType::Global
        } else {
            LocationType::Heap
        },
        is_mutable,
        start_offset,
        end_offset,
        vtype,
        value,
    }
}

impl IMTable {
    pub fn new() -> (r: IMTable)
        ensures
            r@ == Seq::<IMTableEntry>::empty(),
    {
        IMTable(Vec::new())
    }

    pub fn entries(&self) -> (r: &Vec<IMTableEntry>)
        ensures
            r@ == self@,
    {
        &self.0
    }

    /// Appends a global entry when `is_global`, else a heap entry.
    pub fn push(
        &mut self,
        is_global: bool,
        is_mutable: bool,
        start_offset: u32,
        end_offset: u32,
        vtype: ValueType,
        value: u64,
    )
        ensures
            final(self)@ == old(self)@.push(
                imtable_entry(is_global, is_mutable, start_offset, end_offset, vtype, value),
            ),
    {
        let ltype = if is_global {
            LocationType::Global
        } else {
            LocationType::Heap
        };
        self.0.push(IMTableEntry { ltype, is_mutable, start_offset, end_offset, vtype, value });
    }
}

} // verus!
