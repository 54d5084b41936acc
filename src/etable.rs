use vstd::prelude::*;

verus! {

/// The class of a binary arithmetic instruction.
#[derive(Clone, Copy, Debug, PartialEq, Eq, Structural)]
pub enum BinOp {
    Add,
    Sub,
    Mul,
    Div,
    Min,
    Max,
    CopySign,
    UnsignedDiv,
    UnsignedRem,
    SignedDiv,
    SignedRem,
}

impl BinOp {
    /// The short mnemonic of the operation.
    pub fn mnemonic(&self) -> (r: &'static str)
        ensures
            r@ == binop_mnemonic(*self),
    {
        match self {
            BinOp::Add => "add",
            BinOp::Sub => "sub",
            BinOp::Mul => "mul",
            BinOp::Div => "div",
            BinOp::Min => "min",
            BinOp::Max => "max",
            BinOp::CopySign => "copysign",
            BinOp::UnsignedDiv => "udiv",
            BinOp::UnsignedRem => "urem",
            BinOp::SignedDiv => "sdiv",
            BinOp::SignedRem => "srem",
        }
    }
}

/// The mnemonic of each binary operation.
pub open spec fn binop_mnemonic(op: BinOp) -> Seq<char> {
    match op {
        BinOp::Add => "add"@,
        BinOp::Sub => "sub"@,
        BinOp::Mul => "mul"@,
        BinOp::Div => "div"@,
        BinOp::Min => "min"@,
        BinOp::Max => "max"@,
        BinOp::CopySign => "copysign"@,
        BinOp::UnsignedDiv => "udiv"@,
        BinOp::UnsignedRem => "urem"@,
        BinOp::SignedDiv => "sdiv"@,
        BinOp::SignedRem => "srem"@,
    }
}

/// One value-stack slot taking part in a step: its untyped value and its address.
#[derive(Clone, Copy, Debug, PartialEq, Eq, Structural)]
pub struct IVal {
    pub val: u64,
    pub addr: usize,
}

/// What one interpreted step did.
#[derive(Clone, Copy, Debug, PartialEq, Eq, Structural)]
pub enum StepInfo {
    I32BinOp { class: BinOp, left: IVal, right: IVal, result: IVal },
    /// A step of an instruction class that is not traced in detail, by opcode.
    Unimplemented(u16),
}

/// One recorded step of the execution table.
#[derive(Clone, Copy, Debug, PartialEq, Eq, Structural)]
pub struct ETableEntry {
    pub eid: u32,
    pub allocated_memory_pages: u32,
    pub step_info: StepInfo,
}

/// The append-only execution table.
#[derive(Debug)]
pub struct ETable(Vec<ETableEntry>);

impl View for ETable {
    type V = Seq<ETableEntry>;

    closed spec fn view(&self) -> Seq<ETableEntry> {
        self.0@
    }
}

/// Event ids count the entries from one upwards.
pub open spec fn eids_consecutive(entries: Seq<ETableEntry>) -> bool {
    forall|i: int| 0 <= i < entries.len() ==> #[trigger] entries[i].eid == i + 1
}

impl ETable {
    pub open spec fn wf(&self) -> bool {
        eids_consecutive(self@)
    }

    pub fn new() -> (r: ETable)
        ensures
            r@ == Seq::<ETableEntry>::empty(),
            r.wf(),
    {
        ETable(Vec::new())
    }

    pub fn entries(&self) -> (r: &Vec<ETableEntry>)
        ensures
            r@ == self@,
    {
        &self.0
    }

    /// Appends a step; its event id is the new number of entries.
    pub fn push(&mut self, allocated_memory_pages: u32, step_info: StepInfo)
        requires
            old(self).wf(),
            old(self)@.len() < u32::MAX,
        ensures
            final(self).wf(),
            final(self)@ == old(self)@.push(
                ETableEntry { eid: (old(self)@.len() + 1) as u32, allocated_memory_pages, step_info },
            ),
    {
        let eid: u32 = (self.0.len() + 1) as u32;
        let entry = ETableEntry { eid, allocated_memory_pages, step_info };
        self.0.push(entry);
    }
}


/// In a well-formed execution table the first event id is one and each next
/// entry's id is one more than the one before.
pub proof fn lemma_eids_increase_by_one(t: &ETable, i: int)
    requires
        t.wf(),
        0 <= i,
        i + 1 < t@.len(),
    ensures
        t@[0].eid == 1,
        t@[i + 1].eid == t@[i].eid + 1,
{
    assert(t@[0].eid == 0 + 1);
    assert(t@[i].eid == i + 1);
    assert(t@[i + 1].eid == i + 2);
}

} // verus!
