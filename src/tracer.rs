use vstd::prelude::*;
use crate::etable::{ETable, ETableEntry};
use crate::imtable::{imtable_entry, IMTable, IMTableEntry, ValueType};
use crate::mtable::{
    access_count,
    memory_event_of_step,
    mtable_of,
    step_access_count,
    step_accesses,
    MTable,
    MemoryTableEntry,
};

verus! {

/// Bytes in one linear-memory page.
pub const PAGE_BYTES: u32 = 65536;

/// Eight-byte words in one linear-memory page.
pub const PAGE_WORDS: u32 = 8192;

/// The largest number of pages of a 32-bit linear memory.
pub const MAX_PAGES: u32 = 65536;

/// A typed global value; floats are held by their bit pattern, references by a handle.
#[derive(Clone, Copy, Debug, PartialEq, Eq, Structural)]
pub enum Val {
    I32(i32),
    I64(i64),
    F32(u32),
    F64(u64),
    FuncRef(u64),
    ExternRef(u64),
}

pub open spec fn val_type(v: Val) -> ValueType {
    match v {
        Val::I32(_) => ValueType::I32,
        Val::I64(_) => ValueType::I64,
        Val::F32(_) => ValueType::F32,
        Val::F64(_) => ValueType::F64,
        Val::FuncRef(_) => ValueType::FuncRef,
        Val::ExternRef(_) => ValueType::ExternRef,
    }
}

/// The untyped 64-bit slot that holds a value: integers and float bits
/// zero-extended from their unsigned form.
pub open spec fn val_bits(v: Val) -> u64 {
    match v {
        Val::I32(x) => x as u32 as u64,
        Val::I64(x) => x as u64,
        Val::F32(b) => b as u64,
        Val::F64(b) => b,
        Val::FuncRef(h) => h,
        Val::ExternRef(h) => h,
    }
}

/// Relies on wasmi_core's `RawVal::from(i32)` and `RawVal::to_bits64`: the
/// value is stored as its unsigned form, zero-extended.
#[verifier::external_body]
fn raw_bits_i32(v: i32) -> (r: u64)
    ensures
        r == v as u32 as u64,
{
    wasmi_core::RawVal::from(v).to_bits64()
}

/// Relies on wasmi_core's `RawVal::from(i64)` and `RawVal::to_bits64`: the
/// value is stored as its unsigned form.
#[verifier::external_body]
fn raw_bits_i64(v: i64) -> (r: u64)
    ensures
        r == v as u64,
{
    wasmi_core::RawVal::from(v).to_bits64()
}

/// Relies on wasmi_core's `RawVal::from(u32)` and `RawVal::to_bits64`: the
/// value is zero-extended.
#[verifier::external_body]
fn raw_bits_u32(v: u32) -> (r: u64)
    ensures
        r == v as u64,
{
    wasmi_core::RawVal::from(v).to_bits64()
}

impl Val {
    pub fn value_type(&self) -> (r: ValueType)
        ensures
            r == val_type(*self),
    {
        match self {
            Val::I32(_) => ValueType::I32,
            Val::I64(_) => ValueType::I64,
            Val::F32(_) => ValueType::F32,
            Val::F64(_) => ValueType::F64,
            Val::FuncRef(_) => ValueType::FuncRef,
            Val::ExternRef(_) => ValueType::ExternRef,
        }
    }

    pub fn to_bits(&self) -> (r: u64)
        ensures
            r == val_bits(*self),
    {
        match *self {
            Val::I32(x) => raw_bits_i32(x),
            Val::I64(x) => raw_bits_i64(x),
            Val::F32(b) => raw_bits_u32(b),
            Val::F64(b) => b,
            Val::FuncRef(h) => h,
            Val::ExternRef(h) => h,
        }
    }
}

/// The little-endian value of a byte sequence.
pub open spec fn le_value(bytes: Seq<u8>) -> nat
    decreases bytes.len(),
{
    if bytes.len() == 0 {
        0
    } else {
        bytes[0] as nat + 256 * le_value(bytes.drop_first())
    }
}

/// `256` to the power `n`.
pub open spec fn pow256(n: nat) -> nat
    decreases n,
{
    if n == 0 {
        1
    } else {
        256 * pow256((n - 1) as nat)
    }
}

/// The word whose little-endian bytes are `buf`.
fn word_from_le_bytes(buf: [u8; 8]) -> (r: u64)
    ensures
        r as nat == le_value(buf@),
{
    proof {
        reveal_with_fuel(pow256, 9);
    }
    let mut r: u64 = 0;
    let mut k: usize = 8;
    assert(buf@.subrange(8, 8) =~= Seq::<u8>::empty());
    while k > 0
        invariant
            k <= 8,
            buf@.len() == 8,
            r as nat == le_value(buf@.subrange(k as int, 8)),
            r < pow256((8 - k) as nat),
            pow256(8) == 0x1_0000_0000_0000_0000,
        decreases k,
    {
        k = k - 1;
        let b = buf[k];
        let ghost p = pow256((7 - k) as nat);
        assert(buf@.subrange(k as int, 8).drop_first() =~= buf@.subrange(k as int + 1, 8));
        assert(pow256((8 - k) as nat) == 256 * p);
        assert(pow256((8 - k) as nat) <= pow256(8)) by {
            lemma_pow256_mono((8 - k) as nat, 8);
        }
        assert(r * 256 + b < 256 * p) by (nonlinear_arith)
            requires
                r < p,
                b < 256,
        ;
        r = r * 256 + b as u64;
    }
    assert(buf@.subrange(0, 8) =~= buf@);
    r
}

proof fn lemma_pow256_mono(a: nat, b: nat)
    requires
        a <= b,
    ensures
        pow256(a) <= pow256(b),
    decreases b - a,
{
    if a < b {
        lemma_pow256_mono(a, (b - 1) as nat);
    }
}

/// The initial entry of heap word `i` of `memory`.
pub open spec fn heap_word_entry(memory: Seq<u8>, i: int) -> IMTableEntry {
    IMTableEntry {
        ltype: crate::mtable::LocationType::Heap,
        is_mutable: true,
        start_offset: i as u32,
        end_offset: i as u32,
        vtype: ValueType::I64,
        value: le_value(memory.subrange(8 * i, 8 * i + 8)) as u64,
    }
}

/// The last word address of a memory bounded by `maximum_pages`, or `u32::MAX`
/// when it is unbounded.
pub open spec fn memory_end_word(maximum_pages: Option<u32>) -> u32 {
    match maximum_pages {
        Some(m) => (m * PAGE_WORDS - 1) as u32,
        None => u32::MAX,
    }
}

/// The entry that spans the uninitialised tail of the memory.
pub open spec fn tail_entry(initial_pages: u32, maximum_pages: Option<u32>) -> IMTableEntry {
    IMTableEntry {
        ltype: crate::mtable::LocationType::Heap,
        is_mutable: true,
        start_offset: (initial_pages * PAGE_WORDS) as u32,
        end_offset: memory_end_word(maximum_pages),
        vtype: ValueType::I64,
        value: 0,
    }
}

/// The entries of an initial memory: one per eight-byte word, then the tail.
pub open spec fn init_memory_entries(
    memory: Seq<u8>,
    initial_pages: u32,
    maximum_pages: Option<u32>,
) -> Seq<IMTableEntry> {
    Seq::new((initial_pages * PAGE_WORDS) as nat, |i: int| heap_word_entry(memory, i)).push(
        tail_entry(initial_pages, maximum_pages),
    )
}

/// Records the initial memory and globals of an instance and the executed steps.
#[derive(Debug)]
pub struct Tracer {
    pub imtable: IMTable,
    pub etable: ETable,
}

impl Tracer {
    pub fn new() -> (r: Tracer)
        ensures
            r.imtable@ == Seq::<IMTableEntry>::empty(),
            r.etable@ == Seq::<ETableEntry>::empty(),
            r.etable.wf(),
    {
        Tracer { imtable: IMTable::new(), etable: ETable::new() }
    }

    /// Records the initial contents of a linear memory of `initial_pages`
    /// pages, word by word, then its uninitialised tail up to its maximum.
    pub fn push_init_memory(
        &mut self,
        initial_pages: u32,
        maximum_pages: Option<u32>,
        memory: &Vec<u8>,
    )
        requires
            initial_pages <= MAX_PAGES,
            memory@.len() >= initial_pages * PAGE_BYTES,
            maximum_pages matches Some(m) ==> 1 <= m <= MAX_PAGES,
        ensures
            final(self).imtable@ == old(self).imtable@ + init_memory_entries(
                memory@,
                initial_pages,
                maximum_pages,
            ),
            final(self).etable == old(self).etable,
    {
        let words: u32 = initial_pages * PAGE_WORDS;
        let ghost start = self.imtable@;
        let mut i: u32 = 0;
        while i < words
            invariant
                words == initial_pages * PAGE_WORDS,
                initial_pages <= MAX_PAGES,
                memory@.len() >= initial_pages * PAGE_BYTES,
                i <= words,
                self.etable == old(self).etable,
                self.imtable@ =~= start + Seq::new(i as nat, |k: int| heap_word_entry(memory@, k)),
            decreases words - i,
        {
            let b: usize = (i as usize) * 8;
            let buf: [u8; 8] = [
                memory[b],
                memory[b + 1],
                memory[b + 2],
                memory[b + 3],
                memory[b + 4],
                memory[b + 5],
                memory[b + 6],
                memory[b + 7],
            ];
            assert(buf@ =~= memory@.subrange(8 * i, 8 * i + 8));
            let value = word_from_le_bytes(buf);
            self.imtable.push(false, true, i, i, ValueType::I64, value);
            i = i + 1;
        }
        let end_offset: u32 = match maximum_pages {
            Some(limit) => limit * PAGE_WORDS - 1,
            None => u32::MAX,
        };
        self.imtable.push(false, true, words, end_offset, ValueType::I64, 0);
        assert(self.imtable@ =~= start + init_memory_entries(memory@, initial_pages, maximum_pages));
    }

    /// Records global `global_idx` with its mutability, type and slot bits.
    pub fn push_global(&mut self, global_idx: u32, is_mutable: bool, value: Val)
        ensures
            final(self).imtable@ == old(self).imtable@.push(
                imtable_entry(true, is_mutable, global_idx, global_idx, val_type(value), val_bits(value)),
            ),
            final(self).etable == old(self).etable,
    {
        let vtype = value.value_type();
        let bits = value.to_bits();
        self.imtable.push(true, is_mutable, global_idx, global_idx, vtype, bits);
    }

    /// Derives the memory-access table from the execution table.
    pub fn get_mtable(&self) -> (r: MTable)
        requires
            1 + access_count(self.etable@) <= u32::MAX,
        ensures
            r@ == mtable_of(self.etable@),
    {
        let entries = self.etable.entries();
        let ghost all = entries@;
        let mut mentries: Vec<MemoryTableEntry> = Vec::new();
        let mut emid: u32 = 1;
        let mut i: usize = 0;
        while i < entries.len()
            invariant
                all == entries@,
                all == self.etable@,
                1 + access_count(all) <= u32::MAX,
                i <= all.len(),
                emid == 1 + access_count(all.take(i as int)),
                mentries@ == mtable_of(all.take(i as int)),
            decreases all.len() - i,
        {
            proof {
                lemma_prefix_step(all, i as int);
                lemma_access_count_prefix(all, i as int + 1);
            }
            let mut events = memory_event_of_step(&entries[i], &mut emid);
            mentries.append(&mut events);
            i = i + 1;
        }
        proof {
            assert(all.take(all.len() as int) =~= all);
        }
        MTable::new(mentries)
    }
}

impl Default for Tracer {
    fn default() -> (r: Tracer)
        ensures
            r.imtable@ == Seq::<IMTableEntry>::empty(),
            r.etable@ == Seq::<ETableEntry>::empty(),
            r.etable.wf(),
    {
        Tracer::new()
    }
}

/// A prefix one step longer adds that step's count and accesses.
proof fn lemma_prefix_step(s: Seq<ETableEntry>, i: int)
    requires
        0 <= i < s.len(),
    ensures
        access_count(s.take(i + 1)) == access_count(s.take(i)) + step_access_count(s[i]),
        mtable_of(s.take(i + 1)) == mtable_of(s.take(i)) + step_accesses(
            s[i],
            1 + access_count(s.take(i)) as int,
        ),
{
    assert(s.take(i + 1).drop_last() =~= s.take(i));
}

/// The accesses of a prefix are no more than those of the whole.
proof fn lemma_access_count_prefix(s: Seq<ETableEntry>, i: int)
    requires
        0 <= i <= s.len(),
    ensures
        access_count(s.take(i)) <= access_count(s),
    decreases s.len() - i,
{
    if i == s.len() {
        assert(s.take(i) =~= s);
    } else {
        lemma_prefix_step(s, i);
        lemma_access_count_prefix(s, i + 1);
    }
}

} // verus!
