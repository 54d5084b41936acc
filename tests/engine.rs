use wasmi_exec::etable::{BinOp, IVal, StepInfo};
use wasmi_exec::executor::{
    CallKind, CompiledFunc, EngineExecutor, EngineInner, Error, Func, FuncEntity, HostFuncCaller,
    HostFuncEntity, Instance, RegisterSpan, ResumableCall, ResumableInvocation, StoreContext,
    TaggedTrap, WasmFuncEntity, WasmOutcome,
};
use wasmi_exec::stack::{CallFrame, CallStack, Stack, StackLimits, ValueStack};
use wasmi_exec::tracer::Tracer;

const ECHO: u32 = 0;
const FAIL: u32 = 1;
const COUNT: u32 = 2;

const IDENTITY: u32 = 0;
const ADD: u32 = 1;
const CALL_HOST: u32 = 2;
const TAIL_CALL_HOST: u32 = 3;
const RECURSE: u32 = 4;

const LIMITS: StackLimits = StackLimits { max_values: 64, max_frames: 8 };

struct TestStore {
    funcs: Vec<FuncEntity>,
    frame_sizes: Vec<usize>,
    callee: Func,
    tracer: Option<Tracer>,
}

impl StoreContext for TestStore {
    fn resolve_func(&self, func: Func) -> FuncEntity {
        self.funcs[func.0 as usize]
    }

    fn compiled_func(&mut self, func_body: u32) -> Result<CompiledFunc, Error> {
        Ok(CompiledFunc { frame_size: self.frame_sizes[func_body as usize] })
    }

    fn call_trampoline(
        &mut self,
        host_func: HostFuncEntity,
        _instance: Option<Instance>,
        params_results: &mut Vec<u64>,
    ) -> Result<(), Error> {
        match host_func.trampoline {
            ECHO => Ok(()),
            FAIL => Err(Error::Host(0x45)),
            _ => {
                for i in 0..host_func.len_outputs {
                    params_results[i] = i as u64 + 1;
                }
                Ok(())
            }
        }
    }
}

fn wasm(body: u32) -> FuncEntity {
    FuncEntity::Wasm(WasmFuncEntity { instance: Instance(0), func_body: body })
}

fn host(len_inputs: usize, len_outputs: usize, trampoline: u32) -> FuncEntity {
    FuncEntity::Host(HostFuncEntity { len_inputs, len_outputs, trampoline })
}

/// Functions 0..=4 run the bodies of the same number; function 5 is the
/// callee host function of the calling bodies; 6 is a one-in one-out echo.
fn store(callee: FuncEntity) -> TestStore {
    TestStore {
        funcs: vec![wasm(0), wasm(1), wasm(2), wasm(3), wasm(4), callee, host(1, 1, ECHO)],
        frame_sizes: vec![1, 2, 2, 1, 4],
        callee: Func(5),
        tracer: None,
    }
}

fn ret(stack: &mut Stack, v: u64) -> WasmOutcome {
    let f = stack.calls.pop().unwrap();
    stack.values.set(f.results.head as usize, v);
    let len = stack.values.len();
    stack.values.drop(len - f.frame_ptr);
    WasmOutcome::Return
}

fn push_host_buffer(store: &TestStore, stack: &mut Stack, param: u64) -> Result<(), Error> {
    let h = match store.resolve_func(store.callee) {
        FuncEntity::Host(h) => h,
        FuncEntity::Wasm(_) => unreachable!(),
    };
    let n = h.len_inputs.max(h.len_outputs);
    stack.values.reserve(n)?;
    stack.values.extend_zeros(n);
    if h.len_inputs > 0 {
        let at = stack.values.len() - n;
        stack.values.set(at, param);
    }
    Ok(())
}

fn execute_instrs(store: &mut TestStore, stack: &mut Stack) -> Result<WasmOutcome, Error> {
    loop {
        let frame = match stack.calls.peek() {
            Some(f) => f,
            None => return Ok(WasmOutcome::Return),
        };
        let base = frame.base_ptr;
        match (frame.func_body, frame.ip) {
            (IDENTITY, _) => {
                let v = stack.values.get(base);
                return Ok(ret(stack, v));
            }
            (ADD, _) => {
                let a = stack.values.get(base);
                let b = stack.values.get(base + 1);
                let r = (a as u32).wrapping_add(b as u32) as u64;
                if let Some(t) = store.tracer.as_mut() {
                    t.etable.push(
                        0,
                        StepInfo::I32BinOp {
                            class: BinOp::Add,
                            left: IVal { val: a, addr: base },
                            right: IVal { val: b, addr: base + 1 },
                            result: IVal { val: r, addr: base },
                        },
                    );
                }
                return Ok(ret(stack, r));
            }
            (CALL_HOST, 0) => {
                let mut f = stack.calls.pop().unwrap();
                f.ip = 1;
                stack.calls.push(f)?;
                let param = stack.values.get(base);
                push_host_buffer(store, stack, param)?;
                return Ok(WasmOutcome::Call {
                    results: RegisterSpan { head: 1 },
                    host_func: store.callee,
                    call_kind: CallKind::Normal,
                });
            }
            (CALL_HOST, _) => {
                let v = stack.values.get(base + 1);
                return Ok(ret(stack, v));
            }
            (TAIL_CALL_HOST, _) => {
                let param = stack.values.get(base);
                push_host_buffer(store, stack, param)?;
                return Ok(WasmOutcome::Call {
                    results: frame.results,
                    host_func: store.callee,
                    call_kind: CallKind::Tail,
                });
            }
            _ => {
                let size = store.frame_sizes[RECURSE as usize];
                let (base_ptr, frame_ptr) = stack.values.alloc_call_frame(size)?;
                stack.calls.push(CallFrame {
                    func_body: RECURSE,
                    ip: 0,
                    frame_ptr,
                    base_ptr,
                    results: RegisterSpan { head: 0 },
                    instance: Instance(0),
                })?;
            }
        }
    }
}

fn pump(exec: &mut EngineExecutor, store: &mut TestStore) -> Result<(), TaggedTrap> {
    loop {
        let outcome = execute_instrs(store, &mut exec.stack).map_err(TaggedTrap::Wasm)?;
        if exec.on_wasm_outcome(store, outcome)? {
            return Ok(());
        }
    }
}

fn run_root(
    exec: &mut EngineExecutor,
    store: &mut TestStore,
    func: Func,
    params: &Vec<u64>,
    len_results: usize,
) -> Result<Vec<u64>, TaggedTrap> {
    if exec.start_root_func(store, func, params, len_results)? {
        pump(exec, store)?;
    }
    assert!(exec.stack.values.len() >= len_results, "results do not match the stack");
    Ok(exec.write_results_back(len_results))
}

fn call(engine: &mut EngineInner, store: &mut TestStore, func: Func, params: Vec<u64>, n: usize) -> Result<Vec<u64>, Error> {
    let mut exec = EngineExecutor::new(engine.acquire_stack());
    let outcome = run_root(&mut exec, store, func, &params, n);
    engine.finish_call(exec.into_stack(), outcome)
}

fn call_resumable(
    engine: &mut EngineInner,
    store: &mut TestStore,
    func: Func,
    params: Vec<u64>,
    n: usize,
) -> Result<ResumableCall, Error> {
    let mut exec = EngineExecutor::new(engine.acquire_stack());
    let outcome = run_root(&mut exec, store, func, &params, n);
    engine.finish_resumable(func, exec.into_stack(), outcome)
}

fn resume(
    engine: &mut EngineInner,
    store: &mut TestStore,
    inv: ResumableInvocation,
    params: Vec<u64>,
    n: usize,
) -> Result<ResumableCall, Error> {
    let ResumableInvocation { func, host_func, host_error, caller_results, stack } = inv;
    let mut exec = EngineExecutor::new(stack);
    assert!(exec.stack.calls.len() > 0, "must have caller call frame on stack upon function resumption");
    let outcome = exec.resume_func(&params, caller_results).and_then(|()| {
        pump(&mut exec, store)?;
        assert!(exec.stack.values.len() >= n, "results do not match the stack");
        Ok(exec.write_results_back(n))
    });
    let inv = ResumableInvocation { func, host_func, host_error, caller_results, stack: exec.into_stack() };
    engine.finish_resume(inv, outcome)
}

fn finished(r: Result<ResumableCall, Error>) -> Vec<u64> {
    match r {
        Ok(ResumableCall::Finished(v)) => v,
        _ => panic!("expected a finished call"),
    }
}

#[test]
fn root_identity_returns_params() {
    let mut engine = EngineInner::new(LIMITS);
    let mut s = store(host(1, 1, ECHO));
    assert_eq!(call(&mut engine, &mut s, Func(IDENTITY), vec![42], 1), Ok(vec![42]));
    assert_eq!(call(&mut engine, &mut s, Func(IDENTITY), vec![u64::MAX], 1), Ok(vec![u64::MAX]));
}

#[test]
fn pure_wasm_add_with_trace() {
    let mut engine = EngineInner::new(LIMITS);
    let mut s = store(host(1, 1, ECHO));
    s.tracer = Some(Tracer::new());
    assert_eq!(call(&mut engine, &mut s, Func(ADD), vec![2, 3], 1), Ok(vec![5]));
    let t = s.tracer.as_ref().unwrap();
    assert_eq!(t.etable.entries().len(), 1);
    assert_eq!(t.get_mtable().entries().len(), 3);
}

#[test]
fn same_run_twice_gives_equal_tables() {
    let mut engine = EngineInner::new(LIMITS);
    let mut tables = Vec::new();
    for _ in 0..2 {
        let mut s = store(host(1, 1, ECHO));
        s.tracer = Some(Tracer::new());
        assert_eq!(call(&mut engine, &mut s, Func(ADD), vec![7, 8], 1), Ok(vec![15]));
        let t = s.tracer.unwrap();
        tables.push((t.etable.entries().clone(), t.get_mtable().entries().clone()));
    }
    assert_eq!(tables[0], tables[1]);
}

#[test]
fn host_echo_as_root() {
    let mut s = store(host(1, 1, ECHO));
    let mut exec = EngineExecutor::new(Stack::new(LIMITS));
    assert_eq!(exec.start_root_func(&mut s, Func(6), &vec![7], 1), Ok(false));
    assert_eq!(exec.stack.values.len(), 1);
    assert_eq!(exec.stack.values.get(0), 7);
    assert_eq!(exec.write_results_back(1), vec![7]);
    assert_eq!(exec.stack.values.len(), 0);
    let mut engine = EngineInner::new(LIMITS);
    assert_eq!(call(&mut engine, &mut s, Func(6), vec![7], 1), Ok(vec![7]));
}

#[test]
fn host_trap_then_resume() {
    let mut engine = EngineInner::new(LIMITS);
    let mut s = store(host(1, 1, FAIL));
    let inv = match call_resumable(&mut engine, &mut s, Func(CALL_HOST), vec![5], 1) {
        Ok(ResumableCall::Resumable(inv)) => inv,
        _ => panic!("expected a resumable call"),
    };
    assert_eq!(inv.host_error, Error::Host(0x45));
    assert_eq!(inv.host_func, Func(5));
    assert_eq!(inv.func, Func(CALL_HOST));
    assert_eq!(engine.stacks.len(), 0);
    assert_eq!(finished(resume(&mut engine, &mut s, inv, vec![42], 1)), vec![42]);
    assert_eq!(engine.stacks.len(), 1);
}

#[test]
fn resumed_results_match_direct_host_return() {
    let mut engine = EngineInner::new(LIMITS);
    let mut echo = store(host(1, 1, ECHO));
    let direct = finished(call_resumable(&mut engine, &mut echo, Func(CALL_HOST), vec![42], 1));
    let mut failing = store(host(1, 1, FAIL));
    let inv = match call_resumable(&mut engine, &mut failing, Func(CALL_HOST), vec![3], 1) {
        Ok(ResumableCall::Resumable(inv)) => inv,
        _ => panic!("expected a resumable call"),
    };
    assert_eq!(finished(resume(&mut engine, &mut failing, inv, vec![42], 1)), direct);
}

#[test]
fn repeated_host_trap_updates_invocation() {
    let mut engine = EngineInner::new(LIMITS);
    let mut s = store(host(1, 1, FAIL));
    let inv = match call_resumable(&mut engine, &mut s, Func(CALL_HOST), vec![1], 1) {
        Ok(ResumableCall::Resumable(inv)) => inv,
        _ => panic!("expected a resumable call"),
    };
    let mut inv2 = inv;
    inv2.update(Func(5), Error::Host(1), RegisterSpan { head: 1 });
    assert_eq!(inv2.host_error, Error::Host(1));
    assert_eq!(inv2.func, Func(CALL_HOST));
}

#[test]
fn host_tail_call_at_root_is_not_resumable() {
    let mut engine = EngineInner::new(LIMITS);
    let mut s = store(host(1, 1, FAIL));
    match call_resumable(&mut engine, &mut s, Func(TAIL_CALL_HOST), vec![9], 1) {
        Err(e) => assert_eq!(e, Error::Host(0x45)),
        Ok(_) => panic!("expected an error"),
    }
    assert_eq!(engine.stacks.len(), 1);
    let stack = engine.acquire_stack();
    assert_eq!(stack.values.len(), 0);
    assert_eq!(stack.calls.len(), 0);
}

#[test]
fn tail_call_at_root_traps_as_wasm() {
    let mut s = store(host(1, 1, FAIL));
    let mut exec = EngineExecutor::new(Stack::new(LIMITS));
    assert_eq!(exec.start_root_func(&mut s, Func(TAIL_CALL_HOST), &vec![9], 1), Ok(true));
    push_host_buffer(&s, &mut exec.stack, 9).unwrap();
    let entity = s.resolve_func(Func(5));
    let r = exec.execute_host_func(&mut s, RegisterSpan { head: 0 }, Func(5), entity, Instance(0), CallKind::Tail);
    assert_eq!(r, Err(TaggedTrap::Wasm(Error::Host(0x45))));
    assert_eq!(exec.stack.calls.len(), 0);
}

#[test]
fn normal_call_failure_is_resumable() {
    let mut s = store(host(1, 1, FAIL));
    let mut exec = EngineExecutor::new(Stack::new(LIMITS));
    assert_eq!(exec.start_root_func(&mut s, Func(CALL_HOST), &vec![9], 1), Ok(true));
    push_host_buffer(&s, &mut exec.stack, 9).unwrap();
    let before = exec.stack.values.len();
    let entity = s.resolve_func(Func(5));
    let r = exec.execute_host_func(&mut s, RegisterSpan { head: 1 }, Func(5), entity, Instance(0), CallKind::Normal);
    assert_eq!(
        r,
        Err(TaggedTrap::Host { host_func: Func(5), host_error: Error::Host(0x45), caller_results: RegisterSpan { head: 1 } })
    );
    assert_eq!(exec.stack.values.len(), before - 1);
    assert_eq!(exec.stack.calls.len(), 1);
}

#[test]
fn host_call_resolving_to_wasm_is_internal_error() {
    let mut s = store(host(1, 1, ECHO));
    let mut exec = EngineExecutor::new(Stack::new(LIMITS));
    exec.init_root_wasm(Instance(0), 0, CompiledFunc { frame_size: 2 }, &vec![5], 0).unwrap();
    let entity = s.resolve_func(Func(IDENTITY));
    let r = exec.execute_host_func(&mut s, RegisterSpan { head: 0 }, Func(IDENTITY), entity, Instance(0), CallKind::Tail);
    assert_eq!(r, Err(TaggedTrap::Wasm(Error::Internal)));
    assert_eq!((exec.stack.values.len(), exec.stack.calls.len()), (2, 1));
}

#[test]
fn host_call_without_buffer_is_internal_error() {
    let mut s = store(host(3, 1, ECHO));
    let mut exec = EngineExecutor::new(Stack::new(LIMITS));
    exec.init_root_wasm(Instance(0), 0, CompiledFunc { frame_size: 2 }, &vec![5], 0).unwrap();
    let entity = s.resolve_func(Func(5));
    let r = exec.execute_host_func(&mut s, RegisterSpan { head: 0 }, Func(5), entity, Instance(0), CallKind::Normal);
    assert_eq!(r, Err(TaggedTrap::Wasm(Error::Internal)));
    assert_eq!((exec.stack.values.len(), exec.stack.calls.len()), (2, 1));
}

#[test]
fn host_call_outcome_without_frame_is_internal_error() {
    let mut s = store(host(1, 1, ECHO));
    let mut exec = EngineExecutor::new(Stack::new(LIMITS));
    let outcome = WasmOutcome::Call { results: RegisterSpan { head: 0 }, host_func: Func(5), call_kind: CallKind::Normal };
    assert_eq!(exec.on_wasm_outcome(&mut s, outcome), Err(TaggedTrap::Wasm(Error::Internal)));
    assert_eq!(exec.on_wasm_outcome(&mut s, WasmOutcome::Return), Ok(true));
}

#[test]
fn tail_call_success_copies_before_pop() {
    let mut s = store(host(1, 1, ECHO));
    let mut exec = EngineExecutor::new(Stack::new(LIMITS));
    exec.init_root_wasm(Instance(0), 0, CompiledFunc { frame_size: 2 }, &vec![5], 0).unwrap();
    let f = CallFrame { func_body: 3, ip: 0, frame_ptr: 2, base_ptr: 2, results: RegisterSpan { head: 1 }, instance: Instance(0) };
    exec.stack.values.reserve(3).unwrap();
    exec.stack.values.extend_zeros(3);
    exec.stack.calls.push(f).unwrap();
    exec.stack.values.set(4, 9);
    let entity = s.resolve_func(Func(6));
    let r = exec.execute_host_func(&mut s, RegisterSpan { head: 1 }, Func(6), entity, Instance(0), CallKind::Tail);
    assert_eq!(r, Ok(()));
    assert_eq!(exec.stack.calls.len(), 1);
    assert_eq!(exec.stack.values.len(), 4);
    assert_eq!(exec.stack.values.get(3), 9);
}

#[test]
fn stack_overflow_does_not_poison_pool() {
    let mut engine = EngineInner::new(LIMITS);
    let mut s = store(host(1, 1, ECHO));
    assert_eq!(call(&mut engine, &mut s, Func(RECURSE), vec![], 0), Err(Error::StackOverflow));
    assert_eq!(engine.stacks.len(), 1);
    assert_eq!(call(&mut engine, &mut s, Func(IDENTITY), vec![3], 1), Ok(vec![3]));
    assert_eq!(engine.stacks.len(), 1);
}

#[test]
fn frame_that_just_fits_succeeds() {
    let limits = StackLimits { max_values: 10, max_frames: 4 };
    let mut exec = EngineExecutor::new(Stack::new(limits));
    let r = exec.init_root_wasm(Instance(1), 0, CompiledFunc { frame_size: 9 }, &vec![4], 1);
    assert_eq!(r, Ok(()));
    assert_eq!(exec.stack.values.len(), 10);
    assert_eq!(exec.stack.values.get(1), 4);
    assert_eq!(exec.stack.values.get(0), 0);
    let f = exec.stack.calls.peek().unwrap();
    assert_eq!((f.base_ptr, f.frame_ptr, f.results, f.instance), (1, 1, RegisterSpan { head: 0 }, Instance(1)));
}

#[test]
fn frame_one_slot_too_large_overflows() {
    let limits = StackLimits { max_values: 10, max_frames: 4 };
    let mut exec = EngineExecutor::new(Stack::new(limits));
    let r = exec.init_root_wasm(Instance(1), 0, CompiledFunc { frame_size: 10 }, &vec![4], 1);
    assert_eq!(r, Err(TaggedTrap::Wasm(Error::StackOverflow)));
    let mut engine = EngineInner::new(limits);
    let out = engine.finish_call(exec.into_stack(), Err(TaggedTrap::Wasm(Error::StackOverflow)));
    assert_eq!(out, Err(Error::StackOverflow));
    let stack = engine.acquire_stack();
    assert_eq!((stack.values.len(), stack.calls.len()), (0, 0));
}

#[test]
fn too_many_params_for_frame_is_internal() {
    let mut exec = EngineExecutor::new(Stack::new(LIMITS));
    let r = exec.init_root_wasm(Instance(0), 0, CompiledFunc { frame_size: 1 }, &vec![1, 2], 1);
    assert_eq!(r, Err(TaggedTrap::Wasm(Error::Internal)));
}

#[test]
fn zero_call_depth_overflows() {
    let limits = StackLimits { max_values: 10, max_frames: 0 };
    let mut exec = EngineExecutor::new(Stack::new(limits));
    let r = exec.init_root_wasm(Instance(0), 0, CompiledFunc { frame_size: 1 }, &vec![], 0);
    assert_eq!(r, Err(TaggedTrap::Wasm(Error::StackOverflow)));
}

#[test]
fn nullary_host_as_root_leaves_outputs() {
    let mut s = store(host(0, 3, COUNT));
    let mut exec = EngineExecutor::new(Stack::new(LIMITS));
    assert_eq!(exec.start_root_func(&mut s, Func(5), &vec![], 3), Ok(false));
    assert_eq!(exec.stack.values.len(), 3);
    assert_eq!(exec.write_results_back(3), vec![1, 2, 3]);
}

#[test]
fn nullary_host_from_wasm_leaves_no_slots() {
    let mut s = store(host(0, 3, COUNT));
    let mut exec = EngineExecutor::new(Stack::new(LIMITS));
    exec.init_root_wasm(Instance(0), 0, CompiledFunc { frame_size: 4 }, &vec![], 0).unwrap();
    assert_eq!(exec.stack.values.len(), 4);
    exec.stack.values.reserve(3).unwrap();
    exec.stack.values.extend_zeros(3);
    let h = HostFuncEntity { len_inputs: 0, len_outputs: 3, trampoline: COUNT };
    let caller = HostFuncCaller::wasm(RegisterSpan { head: 1 }, Instance(0));
    assert_eq!(exec.dispatch_host_func(&mut s, h, caller), Ok(()));
    assert_eq!(exec.stack.values.len(), 4);
    let vals: Vec<u64> = (0..4).map(|i| exec.stack.values.get(i)).collect();
    assert_eq!(vals, vec![0, 1, 2, 3]);
}

#[test]
fn failed_root_host_call_drops_buffer() {
    let mut s = store(host(2, 1, FAIL));
    let mut exec = EngineExecutor::new(Stack::new(LIMITS));
    let r = exec.start_root_func(&mut s, Func(5), &vec![1, 2], 1);
    assert_eq!(r, Err(TaggedTrap::Wasm(Error::Host(0x45))));
    assert_eq!(exec.stack.values.len(), 0);
}

#[test]
fn root_host_buffer_too_large_overflows() {
    let limits = StackLimits { max_values: 2, max_frames: 4 };
    let mut s = store(host(1, 3, COUNT));
    let mut exec = EngineExecutor::new(Stack::new(limits));
    assert_eq!(exec.start_root_func(&mut s, Func(5), &vec![1], 3), Err(TaggedTrap::Wasm(Error::StackOverflow)));
}

#[test]
fn resume_outside_the_stack_is_internal() {
    let mut exec = EngineExecutor::new(Stack::new(LIMITS));
    exec.init_root_wasm(Instance(0), 0, CompiledFunc { frame_size: 2 }, &vec![], 0).unwrap();
    assert_eq!(exec.resume_func(&vec![1, 2, 3], RegisterSpan { head: 0 }), Err(TaggedTrap::Wasm(Error::Internal)));
    assert_eq!(exec.resume_func(&vec![4], RegisterSpan { head: 1 }), Ok(()));
    assert_eq!((exec.stack.values.get(0), exec.stack.values.get(1)), (0, 4));
}

#[test]
fn write_results_back_of_nothing() {
    let mut exec = EngineExecutor::new(Stack::new(LIMITS));
    assert_eq!(exec.write_results_back(0), Vec::<u64>::new());
}

#[test]
fn value_stack_operations() {
    let mut v = ValueStack::new(4);
    assert_eq!(v.reserve(4), Ok(()));
    assert_eq!(v.reserve(5), Err(Error::StackOverflow));
    v.extend_zeros(3);
    v.fill_at(1, &vec![8, 9]);
    assert_eq!((v.get(0), v.get(1), v.get(2)), (0, 8, 9));
    let top = v.split_top(2);
    assert_eq!(top, vec![8, 9]);
    assert_eq!(v.len(), 1);
    v.push_all(top);
    assert_eq!(v.prefix(3), vec![0, 8, 9]);
    v.drop(2);
    assert_eq!(v.len(), 1);
    assert_eq!(v.alloc_call_frame(3), Ok((1, 1)));
    assert_eq!(v.alloc_call_frame(1), Err(Error::StackOverflow));
    v.reset();
    assert_eq!(v.len(), 0);
}

#[test]
fn call_stack_depth_limit() {
    let mut c = CallStack::new(1);
    let f = CallFrame { func_body: 0, ip: 0, frame_ptr: 0, base_ptr: 0, results: RegisterSpan { head: 0 }, instance: Instance(0) };
    assert_eq!(c.push(f), Ok(()));
    assert_eq!(c.push(f), Err(Error::StackOverflow));
    assert_eq!(c.peek(), Some(f));
    assert_eq!(c.pop(), Some(f));
    assert_eq!(c.pop(), None);
    assert_eq!(f.base_offset(), 0);
}

#[test]
fn host_caller_accessors() {
    let c = HostFuncCaller::wasm(RegisterSpan { head: 2 }, Instance(7));
    assert_eq!(c.results(), Some(RegisterSpan { head: 2 }));
    assert_eq!(c.instance(), Some(Instance(7)));
    assert_eq!(HostFuncCaller::Root.results(), None);
    assert_eq!(HostFuncCaller::Root.instance(), None);
}

#[test]
fn trap_into_error() {
    assert_eq!(TaggedTrap::Wasm(Error::Trap(3)).into_error(), Error::Trap(3));
    let t = TaggedTrap::Host { host_func: Func(1), host_error: Error::Host(9), caller_results: RegisterSpan { head: 0 } };
    assert_eq!(t.into_error(), Error::Host(9));
}

#[test]
fn out_of_fuel_is_not_resumable() {
    let mut engine = EngineInner::new(LIMITS);
    let stack = engine.acquire_stack();
    let r = engine.finish_resumable(Func(0), stack, Err(TaggedTrap::Wasm(Error::OutOfFuel)));
    assert!(matches!(r, Err(Error::OutOfFuel)));
    assert_eq!(engine.stacks.len(), 1);
}
