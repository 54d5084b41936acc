use vstd::prelude::*;
use crate::etable::{ETableEntry, IVal, StepInfo};

verus! {

/// Where an accessed location lives.
#[derive(Clone, Copy, Debug, PartialEq, Eq, Hash, Structural)]
pub enum LocationType {
    Stack,
    Heap,
    Global,
}

/// How a location is accessed.
#[derive(Clone, Copy, Debug, PartialEq, Eq, Hash, Structural)]
pub enum AccessType {
    Read,
    Write,
    Init,
}

impl LocationType {
    pub fn name(&self) -> (r: &'static str)
        ensures
            r@ == match *self {
                LocationType::Stack => "Stack"@,
                LocationType::Heap => "Heap"@,
                LocationType::Global => "Global"@,
            },
    {
        match self {
            LocationType::Stack => "Stack",
            LocationType::Heap => "Heap",
            LocationType::Global => "Global",
        }
    }
}

impl AccessType {
    pub fn name(&self) -> (r: &'static str)
        ensures
            r@ == match *self {
                AccessType::Read => "Read"@,
                AccessType::Write => "Write"@,
                AccessType::Init => "Init"@,
            },
    {
        match self {
            AccessType::Read => "Read",
            AccessType::Write => "Write",
            AccessType::Init => "Init",
        }
    }
}

/// One memory access derived from a step.
#[derive(Clone, Copy, Debug, PartialEq, Eq, Structural)]
pub struct MemoryTableEntry {
    pub eid: u32,
    pub emid: u32,
    pub addr: usize,
    pub ltype: LocationType,
    pub atype: AccessType,
    pub is_mutable: bool,
    pub value: u64,
}

/// The memory-access table.
#[derive(Debug)]
pub struct MTable(Vec<MemoryTableEntry>);

impl View for MTable {
    type V = Seq<MemoryTableEntry>;

    closed spec fn view(&self) -> Seq<MemoryTableEntry> {
        self.0@
    }
}

impl MTable {
    pub fn new(mentries: Vec<MemoryTableEntry>) -> (r: MTable)
        ensures
            r@ == mentries@,
    {
        MTable(mentries)
    }

    pub fn entries(&self) -> (r: &Vec<MemoryTableEntry>)
        ensures
            r@ == self@,
    {
        &self.0
    }
}

/// The access of one value-stack slot in step `eid`, numbered `emid`.
pub open spec fn stack_access(eid: u32, emid: int, ival: IVal, atype: AccessType) -> MemoryTableEntry {
    MemoryTableEntry {
        eid,
        emid: emid as u32,
        addr: ival.addr,
        ltype: LocationType::Stack,
        atype,
        is_mutable: true,
        value: ival.val,
    }
}

/// The reads of `reads`, then the writes of `writes`, numbered from `emid` on.
pub open spec fn stack_accesses(eid: u32, emid: int, reads: Seq<IVal>, writes: Seq<IVal>) -> Seq<
    MemoryTableEntry,
> {
    Seq::new(reads.len(), |i: int| stack_access(eid, emid + i, reads[i], AccessType::Read)) + Seq::new(
        writes.len(),
        |i: int| stack_access(eid, emid + reads.len() + i, writes[i], AccessType::Write),
    )
}

/// How many accesses a step makes.
pub open spec fn step_access_count(entry: ETableEntry) -> nat {
    match entry.step_info {
        StepInfo::I32BinOp { .. } => 3,
        StepInfo::Unimplemented(_) => 0,
    }
}

/// The accesses of one step, numbered from `emid` on.
pub open spec fn step_accesses(entry: ETableEntry, emid: int) -> Seq<MemoryTableEntry> {
    match entry.step_info {
        StepInfo::I32BinOp { left, right, result, .. } => stack_accesses(
            entry.eid,
            emid,
            seq![left, right],
            seq![result],
        ),
        StepInfo::Unimplemented(_) => Seq::empty(),
    }
}

/// How many accesses all the steps make.
pub open spec fn access_count(entries: Seq<ETableEntry>) -> nat
    decreases entries.len(),
{
    if entries.len() == 0 {
        0
    } else {
        access_count(entries.drop_last()) + step_access_count(entries.last())
    }
}

/// The memory-access table of an execution table: the accesses of each step in
/// order, numbered by one counter that starts at one.
pub open spec fn mtable_of(entries: Seq<ETableEntry>) -> Seq<MemoryTableEntry>
    decreases entries.len(),
{
    if entries.len() == 0 {
        Seq::empty()
    } else {
        mtable_of(entries.drop_last()) + step_accesses(
            entries.last(),
            1 + access_count(entries.drop_last()) as int,
        )
    }
}

/// The accesses of one step, numbered from `*emid` on; `*emid` moves past them.
pub fn memory_event_of_step(event: &ETableEntry, emid: &mut u32) -> (r: Vec<MemoryTableEntry>)
    requires
        *old(emid) + step_access_count(*event) <= u32::MAX,
    ensures
        r@ == step_accesses(*event, *old(emid) as int),
        *final(emid) == *old(emid) + step_access_count(*event),
{
    let eid = event.eid;
    match event.step_info {
        StepInfo::I32BinOp { left, right, result, .. } => {
            let reads = [left, right];
            let writes = [result];
            let r = mem_op_from_stack_only_step(eid, emid, &reads, &writes);
            proof {
                assert(reads@ =~= seq![left, right]);
                assert(writes@ =~= seq![result]);
            }
            r
        },
        StepInfo::Unimplemented(_) => Vec::new(),
    }
}

/// Reads of `read_value` then writes of `write_value`, all on the value stack,
/// numbered from `*emid` on.
pub fn mem_op_from_stack_only_step(
    eid: u32,
    emid: &mut u32,
    read_value: &[IVal],
    write_value: &[IVal],
) -> (r: Vec<MemoryTableEntry>)
    requires
        *old(emid) + read_value@.len() + write_value@.len() <= u32::MAX,
    ensures
        r@ == stack_accesses(eid, *old(emid) as int, read_value@, write_value@),
        *final(emid) == *old(emid) + read_value@.len() + write_value@.len(),
{
    let ghost start = *emid as int;
    let mut mem_op: Vec<MemoryTableEntry> = Vec::new();
    let mut i: usize = 0;
    while i < read_value.len()
        invariant
            i <= read_value@.len(),
            start + read_value@.len() + write_value@.len() <= u32::MAX,
            *emid == start + i,
            mem_op@ =~= Seq::new(i as nat, |k: int| stack_access(eid, start + k, read_value@[k], AccessType::Read)),
        decreases read_value@.len() - i,
    {
        let ival = read_value[i];
        mem_op.push(
            MemoryTableEntry {
                eid,
                emid: *emid,
                addr: ival.addr,
                ltype: LocationType::Stack,
                atype: AccessType::Read,
                is_mutable: true,
                value: ival.val,
            },
        );
        *emid = *emid + 1;
        i = i + 1;
    }
    let ghost reads_part = mem_op@;
    let mut j: usize = 0;
    while j < write_value.len()
        invariant
            j <= write_value@.len(),
            start + read_value@.len() + write_value@.len() <= u32::MAX,
            *emid == start + read_value@.len() + j,
            reads_part =~= Seq::new(read_value@.len(), |k: int| stack_access(eid, start + k, read_value@[k], AccessType::Read)),
            mem_op@ =~= reads_part + Seq::new(
                j as nat,
                |k: int| stack_access(eid, start + read_value@.len() + k, write_value@[k], AccessType::Write),
            ),
        decreases write_value@.len() - j,
    {
        let ival = write_value[j];
        mem_op.push(
            MemoryTableEntry {
                eid,
                emid: *emid,
                addr: ival.addr,
                ltype: LocationType::Stack,
                atype: AccessType::Write,
                is_mutable: true,
                value: ival.val,
            },
        );
        *emid = *emid + 1;
        j = j + 1;
    }
    mem_op
}


/// The table has one entry per access.
pub proof fn lemma_mtable_len(entries: Seq<ETableEntry>)
    ensures
        mtable_of(entries).len() == access_count(entries),
    decreases entries.len(),
{
    if entries.len() > 0 {
        lemma_mtable_len(entries.drop_last());
    }
}

/// The table of a prefix of the steps is the matching prefix of the table.
pub proof fn lemma_mtable_prefix(entries: Seq<ETableEntry>, i: int)
    requires
        0 <= i <= entries.len(),
    ensures
        access_count(entries.take(i)) <= access_count(entries),
        mtable_of(entries).take(access_count(entries.take(i)) as int) == mtable_of(entries.take(i)),
    decreases entries.len() - i,
{
    if i == entries.len() {
        assert(entries.take(i) =~= entries);
        lemma_mtable_len(entries);
        assert(mtable_of(entries).take(access_count(entries) as int) =~= mtable_of(entries));
    } else {
        lemma_mtable_prefix(entries, i + 1);
        assert(entries.take(i + 1).drop_last() =~= entries.take(i));
        let head = mtable_of(entries.take(i));
        let step = step_accesses(entries[i], 1 + access_count(entries.take(i)) as int);
        lemma_mtable_len(entries.take(i));
        assert(entries.take(i + 1).last() == entries[i]);
        assert(mtable_of(entries.take(i + 1)) == head + step);
        let whole = mtable_of(entries);
        lemma_mtable_len(entries);
        let c1 = access_count(entries.take(i + 1)) as int;
        assert(whole.take(c1) == head + step);
        assert((head + step).take(head.len() as int) =~= head);
        assert(whole.take(head.len() as int) =~= whole.take(c1).take(head.len() as int));
    }
}

/// The memory-access table depends on the execution table alone: deriving it
/// twice from the same steps gives the same table.
pub proof fn lemma_mtable_deterministic(a: Seq<ETableEntry>, b: Seq<ETableEntry>)
    requires
        a == b,
    ensures
        mtable_of(a) == mtable_of(b),
        access_count(a) == access_count(b),
{
}

/// A step that adds two 32-bit integers (or applies any `I32BinOp`) gives
/// exactly three consecutive accesses, both operands read and then the result
/// written, all on the value stack, with consecutive access numbers that
/// continue those of the earlier steps.
pub proof fn lemma_i32_binop_accesses(entries: Seq<ETableEntry>, k: int)
    requires
        0 <= k < entries.len(),
        entries[k].step_info is I32BinOp,
    ensures
        ({
            let m = mtable_of(entries);
            let p = access_count(entries.take(k)) as int;
            let e = entries[k];
            match e.step_info {
                StepInfo::I32BinOp { left, right, result, .. } => {
                    &&& access_count(entries.take(k + 1)) == p + 3
                    &&& p + 3 <= m.len()
                    &&& m[p] == stack_access(e.eid, p + 1, left, AccessType::Read)
                    &&& m[p + 1] == stack_access(e.eid, p + 2, right, AccessType::Read)
                    &&& m[p + 2] == stack_access(e.eid, p + 3, result, AccessType::Write)
                    &&& m[p].ltype == LocationType::Stack && m[p + 1].ltype == LocationType::Stack
                        && m[p + 2].ltype == LocationType::Stack
                },
                StepInfo::Unimplemented(_) => false,
            }
        }),
{
    lemma_mtable_prefix(entries, k + 1);
    assert(entries.take(k + 1).drop_last() =~= entries.take(k));
    assert(entries.take(k + 1).last() == entries[k]);
    lemma_mtable_len(entries.take(k));
    lemma_mtable_len(entries);
    let p = access_count(entries.take(k)) as int;
    let head = mtable_of(entries.take(k));
    let step = step_accesses(entries[k], 1 + p);
    let m = mtable_of(entries);
    assert(m.take(p + 3) == head + step);
    assert(m[p] == m.take(p + 3)[p]);
    assert(m[p + 1] == m.take(p + 3)[p + 1]);
    assert(m[p + 2] == m.take(p + 3)[p + 2]);
}

} // verus!
