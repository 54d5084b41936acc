use wasmi_exec::etable::{BinOp, ETable, IVal, StepInfo};
use wasmi_exec::imtable::{IMTable, ValueType};
use wasmi_exec::mtable::{mem_op_from_stack_only_step, memory_event_of_step, AccessType, LocationType, MTable};
use wasmi_exec::tracer::{Tracer, Val};

fn add_step(l: u64, r: u64, base: usize) -> StepInfo {
    StepInfo::I32BinOp {
        class: BinOp::Add,
        left: IVal { val: l, addr: base },
        right: IVal { val: r, addr: base + 1 },
        result: IVal { val: l + r, addr: base },
    }
}

#[test]
fn etable_eids_count_from_one() {
    let mut t = ETable::new();
    t.push(1, add_step(2, 3, 0));
    t.push(1, StepInfo::Unimplemented(0x20));
    t.push(2, add_step(4, 5, 2));
    let eids: Vec<u32> = t.entries().iter().map(|e| e.eid).collect();
    assert_eq!(eids, vec![1, 2, 3]);
    assert_eq!(t.entries()[2].allocated_memory_pages, 2);
}

#[test]
fn single_add_step_gives_two_reads_and_a_write() {
    let mut tracer = Tracer::new();
    tracer.etable.push(0, add_step(2, 3, 4));
    assert_eq!(tracer.etable.entries().len(), 1);
    let m = tracer.get_mtable();
    let e = m.entries();
    assert_eq!(e.len(), 3);
    assert_eq!(e[0].atype, AccessType::Read);
    assert_eq!(e[1].atype, AccessType::Read);
    assert_eq!(e[2].atype, AccessType::Write);
    for (k, entry) in e.iter().enumerate() {
        assert_eq!(entry.ltype, LocationType::Stack);
        assert_eq!(entry.eid, 1);
        assert_eq!(entry.emid, k as u32 + 1);
        assert!(entry.is_mutable);
    }
    assert_eq!((e[0].addr, e[0].value), (4, 2));
    assert_eq!((e[1].addr, e[1].value), (5, 3));
    assert_eq!((e[2].addr, e[2].value), (4, 5));
}

#[test]
fn get_mtable_twice_is_equal() {
    let mut tracer = Tracer::new();
    tracer.etable.push(0, add_step(1, 1, 0));
    tracer.etable.push(0, StepInfo::Unimplemented(7));
    tracer.etable.push(0, add_step(6, 7, 3));
    let a = tracer.get_mtable();
    let b = tracer.get_mtable();
    assert_eq!(a.entries(), b.entries());
    assert_eq!(a.entries().len(), 6);
}

#[test]
fn emid_is_threaded_across_steps() {
    let mut tracer = Tracer::new();
    tracer.etable.push(0, add_step(1, 2, 0));
    tracer.etable.push(0, StepInfo::Unimplemented(1));
    tracer.etable.push(0, add_step(3, 4, 0));
    let m = tracer.get_mtable();
    let emids: Vec<u32> = m.entries().iter().map(|e| e.emid).collect();
    assert_eq!(emids, vec![1, 2, 3, 4, 5, 6]);
    let eids: Vec<u32> = m.entries().iter().map(|e| e.eid).collect();
    assert_eq!(eids, vec![1, 1, 1, 3, 3, 3]);
}

#[test]
fn unimplemented_step_has_no_accesses() {
    let mut t = ETable::new();
    t.push(0, StepInfo::Unimplemented(3));
    let mut emid: u32 = 9;
    let r = memory_event_of_step(&t.entries()[0], &mut emid);
    assert!(r.is_empty());
    assert_eq!(emid, 9);
}

#[test]
fn stack_only_step_orders_reads_before_writes() {
    let reads = [IVal { val: 10, addr: 1 }];
    let writes = [IVal { val: 20, addr: 2 }, IVal { val: 30, addr: 3 }];
    let mut emid: u32 = 5;
    let r = mem_op_from_stack_only_step(8, &mut emid, &reads, &writes);
    assert_eq!(emid, 8);
    assert_eq!(r.len(), 3);
    assert_eq!((r[0].atype, r[0].emid, r[0].value), (AccessType::Read, 5, 10));
    assert_eq!((r[1].atype, r[1].emid, r[1].value), (AccessType::Write, 6, 20));
    assert_eq!((r[2].atype, r[2].emid, r[2].addr), (AccessType::Write, 7, 3));
    assert!(r.iter().all(|e| e.eid == 8));
}

#[test]
fn empty_etable_gives_empty_mtable() {
    let tracer = Tracer::new();
    assert!(tracer.get_mtable().entries().is_empty());
    assert!(MTable::new(Vec::new()).entries().is_empty());
}

#[test]
fn init_memory_one_page_bounded() {
    let mut memory = vec![0u8; 65536];
    memory[0] = 1;
    memory[9] = 2;
    memory[65535] = 0x80;
    let mut tracer = Tracer::new();
    tracer.push_init_memory(1, Some(2), &memory);
    let e = tracer.imtable.entries();
    assert_eq!(e.len(), 8193);
    assert_eq!(e[0].value, 1);
    assert_eq!(e[1].value, 0x200);
    assert_eq!(e[8191].value, 0x8000_0000_0000_0000);
    assert_eq!((e[5].start_offset, e[5].end_offset), (5, 5));
    assert_eq!(e[0].ltype, LocationType::Heap);
    assert_eq!(e[0].vtype, ValueType::I64);
    let tail = e[8192];
    assert_eq!((tail.start_offset, tail.end_offset, tail.value), (8192, 16383, 0));
    assert!(tail.is_mutable);
}

#[test]
fn init_memory_without_pages_unbounded() {
    let mut tracer = Tracer::new();
    tracer.push_init_memory(0, None, &Vec::new());
    let e = tracer.imtable.entries();
    assert_eq!(e.len(), 1);
    assert_eq!((e[0].start_offset, e[0].end_offset), (0, u32::MAX));
}

#[test]
fn globals_record_type_and_bits() {
    let mut tracer = Tracer::new();
    tracer.push_global(0, true, Val::I32(-1));
    tracer.push_global(3, false, Val::I64(-2));
    tracer.push_global(4, true, Val::F32(0x3f80_0000));
    let e = tracer.imtable.entries();
    assert_eq!(e[0].value, 0xFFFF_FFFF);
    assert_eq!(e[0].vtype, ValueType::I32);
    assert_eq!(e[0].ltype, LocationType::Global);
    assert_eq!(e[1].value, 0xFFFF_FFFF_FFFF_FFFE);
    assert_eq!((e[1].start_offset, e[1].end_offset, e[1].is_mutable), (3, 3, false));
    assert_eq!((e[2].value, e[2].vtype), (0x3f80_0000, ValueType::F32));
}

#[test]
fn imtable_push_picks_location() {
    let mut t = IMTable::new();
    t.push(true, false, 1, 1, ValueType::I32, 5);
    t.push(false, true, 2, 2, ValueType::I64, 6);
    assert_eq!(t.entries()[0].ltype, LocationType::Global);
    assert_eq!(t.entries()[1].ltype, LocationType::Heap);
}

#[test]
fn binop_mnemonics() {
    assert_eq!(BinOp::Add.mnemonic(), "add");
    assert_eq!(BinOp::CopySign.mnemonic(), "copysign");
    assert_eq!(BinOp::UnsignedRem.mnemonic(), "urem");
    assert_eq!(BinOp::SignedDiv.mnemonic(), "sdiv");
}
