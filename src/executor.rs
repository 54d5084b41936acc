use vstd::prelude::*;
use crate::stack::{overflows, written_at, zeros, CallFrame, Stack, StackLimits, StackPool};

verus! {

/// Errors of an invocation.
#[derive(Clone, Copy, Debug, PartialEq, Eq, Structural)]
pub enum Error {
    /// The value stack or the call stack is full.
    StackOverflow,
    /// Metering ran out.
    OutOfFuel,
    /// A Wasm trap, by trap code.
    Trap(u8),
    /// A host function failed, with its error payload.
    Host(u64),
    /// A broken invariant of the execution core.
    Internal,
}

/// A function handle.
#[derive(Clone, Copy, Debug, PartialEq, Eq, Structural)]
pub struct Func(pub u32);

/// An instance handle.
#[derive(Clone, Copy, Debug, PartialEq, Eq, Structural)]
pub struct Instance(pub u32);

/// A span of registers from `head` on: register `head + i` holds the `i`-th value.
#[derive(Clone, Copy, Debug, PartialEq, Eq, Structural)]
pub struct RegisterSpan {
    pub head: i16,
}

/// A host function with its signature's parameter and result counts.
#[derive(Clone, Copy, Debug, PartialEq, Eq, Structural)]
pub struct HostFuncEntity {
    pub len_inputs: usize,
    pub len_outputs: usize,
    pub trampoline: u32,
}

/// A Wasm function: its instance and its compiled body.
#[derive(Clone, Copy, Debug, PartialEq, Eq, Structural)]
pub struct WasmFuncEntity {
    pub instance: Instance,
    pub func_body: u32,
}

/// What a function handle resolves to.
#[derive(Clone, Copy, Debug, PartialEq, Eq, Structural)]
pub enum FuncEntity {
    Wasm(WasmFuncEntity),
    Host(HostFuncEntity),
}

/// A compiled function body: its register count, locals and temporaries.
#[derive(Clone, Copy, Debug, PartialEq, Eq, Structural)]
pub struct CompiledFunc {
    pub frame_size: usize,
}

/// How a host function is called from Wasm.
#[derive(Clone, Copy, Debug, PartialEq, Eq, Structural)]
pub enum CallKind {
    Normal,
    Tail,
}

/// Why instruction execution stopped without a trap.
#[derive(Clone, Copy, Debug, PartialEq, Eq, Structural)]
pub enum WasmOutcome {
    /// The root frame returned.
    Return,
    /// The top frame calls a host function, whose parameters and result
    /// buffer are the top slots of the value stack.
    Call { results: RegisterSpan, host_func: Func, call_kind: CallKind },
}

/// A trap, told apart by whether it can be resumed.
#[derive(Clone, Copy, Debug, PartialEq, Eq, Structural)]
pub enum TaggedTrap {
    /// Not resumable.
    Wasm(Error),
    /// A host function failed while a caller frame remained.
    Host { host_func: Func, host_error: Error, caller_results: RegisterSpan },
}

pub open spec fn trap_error(t: TaggedTrap) -> Error {
    match t {
        TaggedTrap::Wasm(e) => e,
        TaggedTrap::Host { host_error, .. } => host_error,
    }
}

impl TaggedTrap {
    pub fn into_error(self) -> (r: Error)
        ensures
            r == trap_error(self),
    {
        match self {
            TaggedTrap::Wasm(e) => e,
            TaggedTrap::Host { host_error, .. } => host_error,
        }
    }
}

/// The caller of a host function.
#[derive(Clone, Copy, Debug, PartialEq, Eq, Structural)]
pub enum HostFuncCaller {
    /// The embedder calls the host function.
    Root,
    /// A Wasm frame calls it and expects the results in `results`.
    Wasm { results: RegisterSpan, instance: Instance },
}

impl HostFuncCaller {
    pub fn wasm(results: RegisterSpan, instance: Instance) -> (r: Self)
        ensures
            r == (HostFuncCaller::Wasm { results, instance }),
    {
        HostFuncCaller::Wasm { results, instance }
    }

    pub fn results(&self) -> (r: Option<RegisterSpan>)
        ensures
            r == match *self {
                HostFuncCaller::Root => None,
                HostFuncCaller::Wasm { results, .. } => Some(results),
            },
    {
        match *self {
            HostFuncCaller::Root => None,
            HostFuncCaller::Wasm { results, .. } => Some(results),
        }
    }

    pub fn instance(&self) -> (r: Option<Instance>)
        ensures
            r == match *self {
                HostFuncCaller::Root => None,
                HostFuncCaller::Wasm { instance, .. } => Some(instance),
            },
    {
        match *self {
            HostFuncCaller::Root => None,
            HostFuncCaller::Wasm { instance, .. } => Some(instance),
        }
    }
}

/// The store side of an invocation: function resolution, compiled code and
/// host trampolines.
pub trait StoreContext {
    fn resolve_func(&self, func: Func) -> FuncEntity;

    /// The compiled body `func_body`; may charge fuel and fail with `OutOfFuel`.
    fn compiled_func(&mut self, func_body: u32) -> Result<CompiledFunc, Error>;

    /// Runs a host function on `params_results`: its inputs are the first
    /// slots, and on success its outputs are the first slots.
    fn call_trampoline(
        &mut self,
        host_func: HostFuncEntity,
        instance: Option<Instance>,
        params_results: &mut Vec<u64>,
    ) -> Result<(), Error>;
}

/// The size of the parameter and result buffer of a host function.
pub open spec fn max_inout(h: HostFuncEntity) -> nat {
    if h.len_inputs >= h.len_outputs {
        h.len_inputs as nat
    } else {
        h.len_outputs as nat
    }
}

/// Where a span of `n` registers of a frame at `base` starts on a value stack
/// of length `len`, when it lies inside the stack.
pub open spec fn span_start(base: usize, span: RegisterSpan, n: nat, len: nat) -> Option<int> {
    let start = base + span.head;
    if 0 <= start && start + n <= len {
        Some(start)
    } else {
        None
    }
}

fn span_start_of(base: usize, span: RegisterSpan, n: usize, len: usize) -> (r: Option<usize>)
    ensures
        match span_start(base, span, n as nat, len as nat) {
            Some(s) => r == Some(s as usize),
            None => r is None,
        },
{
    let h = span.head;
    let start: usize;
    if h >= 0 {
        let hu = h as usize;
        if base > len || hu > len - base {
            return None;
        }
        start = base + hu;
    } else {
        let hu = (0i32 - h as i32) as usize;
        if hu > base {
            return None;
        }
        start = base - hu;
    }
    if start > len || n > len - start {
        None
    } else {
        Some(start)
    }
}

/// The call frames after a host call of kind `kind` returned.
pub open spec fn calls_after(calls: Seq<CallFrame>, kind: CallKind) -> Seq<CallFrame> {
    if kind == CallKind::Tail && calls.len() > 0 {
        calls.drop_last()
    } else {
        calls
    }
}

/// Whether `new_values` is the value stack after a call of host function `h`
/// by `caller`, which ended in `res`. Before the call the host's parameter and
/// result buffer was the top of `values`, and the call frames were `calls`.
/// The buffer always leaves the stack; on success a root caller finds the
/// host's outputs in its place, and a Wasm caller finds the first
/// `h.len_outputs` of them in the result registers of the top frame.
pub open spec fn dispatch_done(
    values: Seq<u64>,
    calls: Seq<CallFrame>,
    new_values: Seq<u64>,
    h: HostFuncEntity,
    caller: HostFuncCaller,
    res: Result<(), Error>,
) -> bool {
    let base = values.len() - max_inout(h);
    match res {
        Err(_) => new_values == values.take(base),
        Ok(()) => match caller {
            HostFuncCaller::Root => new_values.len() == values.len() && new_values.take(base)
                == values.take(base),
            HostFuncCaller::Wasm { results, .. } => calls.len() > 0 && match span_start(
                calls.last().base_ptr,
                results,
                h.len_outputs as nat,
                base as nat,
            ) {
                None => false,
                Some(start) => exists|outputs: Seq<u64>|
                    outputs.len() == h.len_outputs && #[trigger] written_at(
                        values.take(base),
                        start,
                        outputs,
                    ) == new_values,
            },
        },
    }
}

/// What a host call from Wasm gives: success, or a trap that is resumable
/// exactly when a frame is `remaining`.
pub open spec fn tagged_outcome(
    res: Result<(), Error>,
    func: Func,
    results: RegisterSpan,
    remaining: Seq<CallFrame>,
) -> Result<(), TaggedTrap> {
    match res {
        Ok(()) => Ok(()),
        Err(e) => if remaining.len() > 0 {
            Err(TaggedTrap::Host { host_func: func, host_error: e, caller_results: results })
        } else {
            Err(TaggedTrap::Wasm(e))
        },
    }
}

/// Whether a call of `func`, which resolved to `entity`, from the top frame
/// went from `values` and `calls` to `new_values` and `new_calls` and gave
/// `r`, when the host function ended in `res`.
pub open spec fn host_call_done(
    values: Seq<u64>,
    calls: Seq<CallFrame>,
    new_values: Seq<u64>,
    new_calls: Seq<CallFrame>,
    func: Func,
    results: RegisterSpan,
    instance: Instance,
    call_kind: CallKind,
    entity: FuncEntity,
    res: Result<(), Error>,
    r: Result<(), TaggedTrap>,
) -> bool {
    match entity {
        FuncEntity::Wasm(_) => r == Err::<(), TaggedTrap>(TaggedTrap::Wasm(Error::Internal))
            && new_values == values && new_calls == calls,
        FuncEntity::Host(h) => if values.len() < max_inout(h) {
            r == Err::<(), TaggedTrap>(TaggedTrap::Wasm(Error::Internal)) && new_values == values
                && new_calls == calls
        } else {
            &&& dispatch_done(
                values,
                calls,
                new_values,
                h,
                HostFuncCaller::Wasm { results, instance },
                res,
            )
            &&& new_calls == calls_after(calls, call_kind)
            &&& r == tagged_outcome(res, func, results, calls_after(calls, call_kind))
        },
    }
}

/// A loop step's result seen as the result of its host call.
pub open spec fn step_result(r: Result<bool, TaggedTrap>) -> Result<(), TaggedTrap> {
    match r {
        Ok(_) => Ok(()),
        Err(t) => Err(t),
    }
}

/// The stack that a root call of a compiled function sets up on an empty
/// stack, or the error it fails with.
pub open spec fn root_wasm_setup(
    max_len: nat,
    max_depth: nat,
    instance: Instance,
    func_body: u32,
    frame_size: usize,
    params: Seq<u64>,
    len_results: usize,
) -> Result<(Seq<u64>, Seq<CallFrame>), Error> {
    if params.len() > frame_size {
        Err(Error::Internal)
    } else if overflows(0, len_results as nat, max_len) {
        Err(Error::StackOverflow)
    } else if overflows(len_results as nat, frame_size as nat, max_len) {
        Err(Error::StackOverflow)
    } else if max_depth == 0 {
        Err(Error::StackOverflow)
    } else {
        Ok(
            (
                zeros(len_results as nat) + params + zeros((frame_size - params.len()) as nat),
                seq![
                    CallFrame {
                        func_body,
                        ip: 0,
                        frame_ptr: len_results,
                        base_ptr: len_results,
                        results: RegisterSpan { head: 0 },
                        instance,
                    },
                ],
            ),
        )
    }
}

/// The value stack that a root call of host function `h` sets up on an empty
/// stack: the zeroed buffer holding the first parameters; or the error.
pub open spec fn root_host_setup(max_len: nat, h: HostFuncEntity, params: Seq<u64>) -> Result<
    Seq<u64>,
    Error,
> {
    if overflows(0, max_inout(h), max_len) {
        Err(Error::StackOverflow)
    } else {
        Ok(
            written_at(
                zeros(max_inout(h)),
                0,
                params.take(
                    if params.len() <= h.len_inputs {
                        params.len() as int
                    } else {
                        h.len_inputs as int
                    },
                ),
            ),
        )
    }
}

/// Whether a root call reached `values` and `calls` and gave `r`, when the
/// function resolved to `entity`, its compiled body came back as `compiled`,
/// and a host function ended in `res`.
pub open spec fn root_started(
    max_len: nat,
    max_depth: nat,
    params: Seq<u64>,
    len_results: usize,
    entity: FuncEntity,
    compiled: Result<CompiledFunc, Error>,
    res: Result<(), Error>,
    values: Seq<u64>,
    calls: Seq<CallFrame>,
    r: Result<bool, TaggedTrap>,
) -> bool {
    match entity {
        FuncEntity::Wasm(w) => match compiled {
            Err(e) => r == Err::<bool, TaggedTrap>(TaggedTrap::Wasm(e)) && values.len() == 0
                && calls.len() == 0,
            Ok(c) => match root_wasm_setup(
                max_len,
                max_depth,
                w.instance,
                w.func_body,
                c.frame_size,
                params,
                len_results,
            ) {
                Err(e) => r == Err::<bool, TaggedTrap>(TaggedTrap::Wasm(e)),
                Ok((v, cs)) => r == Ok::<bool, TaggedTrap>(true) && values == v && calls == cs,
            },
        },
        FuncEntity::Host(h) => match root_host_setup(max_len, h, params) {
            Err(e) => r == Err::<bool, TaggedTrap>(TaggedTrap::Wasm(e)) && values.len() == 0
                && calls.len() == 0,
            Ok(v) => {
                &&& calls.len() == 0
                &&& dispatch_done(v, Seq::empty(), values, h, HostFuncCaller::Root, res)
                &&& r == match res {
                    Ok(()) => Ok::<bool, TaggedTrap>(false),
                    Err(e) => Err(TaggedTrap::Wasm(e)),
                }
            },
        },
    }
}

/// Runs invocations on one stack.
#[derive(Debug)]
pub struct EngineExecutor {
    pub stack: Stack,
}

impl EngineExecutor {
    pub fn new(stack: Stack) -> (r: Self)
        ensures
            r.stack == stack,
    {
        EngineExecutor { stack }
    }

    pub fn into_stack(self) -> (r: Stack)
        ensures
            r == self.stack,
    {
        self.stack
    }

    /// Handles what a host function returned: `buffer` is its parameter and
    /// result buffer, already taken off the value stack.
    pub fn finish_host_call(
        &mut self,
        caller: HostFuncCaller,
        len_outputs: usize,
        max_inout: usize,
        buffer: Vec<u64>,
        outcome: Result<(), Error>,
    ) -> (r: Result<(), Error>)
        requires
            len_outputs <= max_inout,
        ensures
            final(self).stack.calls == old(self).stack.calls,
            final(self).stack.values.max_len() == old(self).stack.values.max_len(),
            r is Err ==> final(self).stack.values@ == old(self).stack.values@,
            outcome is Err ==> r == outcome,
            outcome is Ok && buffer@.len() != max_inout ==> r == Err::<(), Error>(Error::Internal),
            outcome is Ok && buffer@.len() == max_inout ==> match caller {
                HostFuncCaller::Root => r is Ok && final(self).stack.values@ == old(self).stack.values@
                    + buffer@,
                HostFuncCaller::Wasm { results, .. } => {
                    let calls = old(self).stack.calls@;
                    let len = old(self).stack.values@.len();
                    if calls.len() == 0 {
                        r == Err::<(), Error>(Error::Internal)
                    } else {
                        match span_start(calls.last().base_ptr, results, len_outputs as nat, len) {
                            None => r == Err::<(), Error>(Error::Internal),
                            Some(start) => r is Ok && final(self).stack.values@ == written_at(
                                old(self).stack.values@,
                                start,
                                buffer@.take(len_outputs as int),
                            ),
                        }
                    }
                },
            },
    {
        match outcome {
            Err(e) => {
                return Err(e);
            },
            Ok(()) => {},
        }
        if buffer.len() != max_inout {
            return Err(Error::Internal);
        }
        match caller {
            HostFuncCaller::Root => {
                self.stack.values.push_all(buffer);
                Ok(())
            },
            HostFuncCaller::Wasm { results, .. } => {
                let frame = match self.stack.calls.peek() {
                    Some(f) => f,
                    None => {
                        return Err(Error::Internal);
                    },
                };
                let len = self.stack.values.len();
                match span_start_of(frame.base_offset(), results, len_outputs, len) {
                    None => Err(Error::Internal),
                    Some(start) => {
                        let mut outputs = buffer;
                        outputs.truncate(len_outputs);
                        self.stack.values.fill_at(start, &outputs);
                        Ok(())
                    },
                }
            },
        }
    }

    /// Calls a host function whose parameter and result buffer are the top
    /// slots of the value stack. Whatever the outcome, the buffer leaves the
    /// stack, except that a root caller finds the outputs there on success.
    pub fn dispatch_host_func<C: StoreContext>(
        &mut self,
        ctx: &mut C,
        host_func: HostFuncEntity,
        caller: HostFuncCaller,
    ) -> (r: Result<(), Error>)
        requires
            old(self).stack.values@.len() >= max_inout(host_func),
        ensures
            final(self).stack.calls == old(self).stack.calls,
            final(self).stack.values.max_len() == old(self).stack.values.max_len(),
            dispatch_done(
                old(self).stack.values@,
                old(self).stack.calls@,
                final(self).stack.values@,
                host_func,
                caller,
                r,
            ),
    {
        let len_inputs = host_func.len_inputs;
        let len_outputs = host_func.len_outputs;
        let max_inout = if len_inputs >= len_outputs {
            len_inputs
        } else {
            len_outputs
        };
        let mut buffer = self.stack.values.split_top(max_inout);
        let outcome = ctx.call_trampoline(host_func, caller.instance(), &mut buffer);
        let ghost returned = buffer@;
        let ghost base_values = self.stack.values@;
        let r = self.finish_host_call(caller, len_outputs, max_inout, buffer, outcome);
        proof {
            if r is Ok && caller is Root {
                assert(self.stack.values@.take(base_values.len() as int) =~= base_values);
            }
            if r is Ok {
                if let HostFuncCaller::Wasm { results, .. } = caller {
                    let calls = self.stack.calls@;
                    if let Some(start) = span_start(
                        calls.last().base_ptr,
                        results,
                        len_outputs as nat,
                        base_values.len(),
                    ) {
                        let outputs = returned.take(len_outputs as int);
                        assert(written_at(base_values, start, outputs) == self.stack.values@);
                    }
                }
            }
        }
        r
    }

    /// After a host call from the top frame ended in `result`: removes the
    /// calling frame on a tail call, then makes a failure resumable exactly
    /// when a frame remains.
    pub fn tag_host_outcome(
        &mut self,
        result: Result<(), Error>,
        func: Func,
        results: RegisterSpan,
        call_kind: CallKind,
    ) -> (r: Result<(), TaggedTrap>)
        ensures
            final(self).stack.values == old(self).stack.values,
            final(self).stack.calls.max_depth() == old(self).stack.calls.max_depth(),
            final(self).stack.calls@ == calls_after(old(self).stack.calls@, call_kind),
            r == tagged_outcome(result, func, results, calls_after(old(self).stack.calls@, call_kind)),
    {
        if call_kind == CallKind::Tail {
            let _ = self.stack.calls.pop();
        }
        if self.stack.calls.len() > 0 {
            match result {
                Ok(()) => Ok(()),
                Err(e) => Err(TaggedTrap::Host { host_func: func, host_error: e, caller_results: results }),
            }
        } else {
            match result {
                Ok(()) => Ok(()),
                Err(e) => Err(TaggedTrap::Wasm(e)),
            }
        }
    }

    /// Calls `func`, which resolved to `entity`, for the top frame, which
    /// expects the results in `results`. The results are copied at the top
    /// frame's offset before a tail call removes that frame. A failure of the
    /// host function is resumable exactly when a frame remains. A Wasm
    /// `entity`, or a value stack without the host's buffer, is an internal
    /// error that changes nothing.
    pub fn execute_host_func<C: StoreContext>(
        &mut self,
        ctx: &mut C,
        results: RegisterSpan,
        func: Func,
        entity: FuncEntity,
        instance: Instance,
        call_kind: CallKind,
    ) -> (r: Result<(), TaggedTrap>)
        ensures
            final(self).stack.values.max_len() == old(self).stack.values.max_len(),
            final(self).stack.calls.max_depth() == old(self).stack.calls.max_depth(),
            exists|res: Result<(), Error>|
                #[trigger] host_call_done(
                    old(self).stack.values@,
                    old(self).stack.calls@,
                    final(self).stack.values@,
                    final(self).stack.calls@,
                    func,
                    results,
                    instance,
                    call_kind,
                    entity,
                    res,
                    r,
                ),
    {
        let host = match entity {
            FuncEntity::Wasm(_) => {
                let r = Err(TaggedTrap::Wasm(Error::Internal));
                assert(host_call_done(
                    old(self).stack.values@,
                    old(self).stack.calls@,
                    self.stack.values@,
                    self.stack.calls@,
                    func,
                    results,
                    instance,
                    call_kind,
                    entity,
                    Ok(()),
                    r,
                ));
                return r;
            },
            FuncEntity::Host(h) => h,
        };
        let needed = if host.len_inputs >= host.len_outputs {
            host.len_inputs
        } else {
            host.len_outputs
        };
        if self.stack.values.len() < needed {
            let r = Err(TaggedTrap::Wasm(Error::Internal));
            assert(host_call_done(
                old(self).stack.values@,
                old(self).stack.calls@,
                self.stack.values@,
                self.stack.calls@,
                func,
                results,
                instance,
                call_kind,
                entity,
                Ok(()),
                r,
            ));
            return r;
        }
        let result = self.dispatch_host_func(ctx, host, HostFuncCaller::wasm(results, instance));
        let r = self.tag_host_outcome(result, func, results, call_kind);
        assert(host_call_done(
            old(self).stack.values@,
            old(self).stack.calls@,
            self.stack.values@,
            self.stack.calls@,
            func,
            results,
            instance,
            call_kind,
            entity,
            result,
            r,
        ));
        r
    }

    /// Handles one outcome of instruction execution: `Ok(true)` when the root
    /// frame has returned, `Ok(false)` after a host call when execution goes
    /// on. A host call is made for the top frame, with its instance, and its
    /// trap is passed on unchanged.
    pub fn on_wasm_outcome<C: StoreContext>(&mut self, ctx: &mut C, outcome: WasmOutcome) -> (r:
        Result<bool, TaggedTrap>)
        ensures
            final(self).stack.values.max_len() == old(self).stack.values.max_len(),
            final(self).stack.calls.max_depth() == old(self).stack.calls.max_depth(),
            outcome is Return ==> r == Ok::<bool, TaggedTrap>(true) && final(self).stack
                == old(self).stack,
            outcome is Call && old(self).stack.calls@.len() == 0 ==> r == Err::<bool, TaggedTrap>(
                TaggedTrap::Wasm(Error::Internal),
            ) && final(self).stack == old(self).stack,
            match outcome {
                WasmOutcome::Return => true,
                WasmOutcome::Call { results, host_func, call_kind } => old(self).stack.calls@.len()
                    > 0 ==> r != Ok::<bool, TaggedTrap>(true) && exists|
                entity: FuncEntity,
                res: Result<(), Error>,
            |
                #[trigger] host_call_done(
                    old(self).stack.values@,
                    old(self).stack.calls@,
                    final(self).stack.values@,
                    final(self).stack.calls@,
                    host_func,
                    results,
                    old(self).stack.calls@.last().instance,
                    call_kind,
                    entity,
                    res,
                    step_result(r),
                ),
            },
    {
        match outcome {
            WasmOutcome::Return => Ok(true),
            WasmOutcome::Call { results, host_func, call_kind } => {
                let instance = match self.stack.calls.peek() {
                    Some(frame) => frame.instance,
                    None => {
                        return Err(TaggedTrap::Wasm(Error::Internal));
                    },
                };
                let entity = ctx.resolve_func(host_func);
                let t = self.execute_host_func(ctx, results, host_func, entity, instance, call_kind);
                let r = match t {
                    Ok(()) => Ok(false),
                    Err(t) => Err(t),
                };
                proof {
                    let res = choose|res: Result<(), Error>|
                        #[trigger] host_call_done(
                            old(self).stack.values@,
                            old(self).stack.calls@,
                            self.stack.values@,
                            self.stack.calls@,
                            host_func,
                            results,
                            instance,
                            call_kind,
                            entity,
                            res,
                            t,
                        );
                    assert(step_result(r) == t);
                    assert(host_call_done(
                        old(self).stack.values@,
                        old(self).stack.calls@,
                        self.stack.values@,
                        self.stack.calls@,
                        host_func,
                        results,
                        instance,
                        call_kind,
                        entity,
                        res,
                        step_result(r),
                    ));
                }
                r
            },
        }
    }

    /// Sets up a root call of a compiled function on an empty stack: zeroed
    /// slots for `len_results` results, then the callee's zeroed frame with
    /// `params` at its start, and the callee's frame on the call stack.
    pub fn init_root_wasm(
        &mut self,
        instance: Instance,
        func_body: u32,
        compiled: CompiledFunc,
        params: &Vec<u64>,
        len_results: usize,
    ) -> (r: Result<(), TaggedTrap>)
        requires
            old(self).stack.is_empty(),
        ensures
            final(self).stack.values.max_len() == old(self).stack.values.max_len(),
            final(self).stack.calls.max_depth() == old(self).stack.calls.max_depth(),
            match root_wasm_setup(
                old(self).stack.values.max_len(),
                old(self).stack.calls.max_depth(),
                instance,
                func_body,
                compiled.frame_size,
                params@,
                len_results,
            ) {
                Err(e) => r == Err::<(), TaggedTrap>(TaggedTrap::Wasm(e)),
                Ok((v, c)) => r is Ok && final(self).stack.values@ == v && final(self).stack.calls@
                    == c,
            },
    {
        if params.len() > compiled.frame_size {
            return Err(TaggedTrap::Wasm(Error::Internal));
        }
        match self.stack.values.reserve(len_results) {
            Err(e) => {
                return Err(TaggedTrap::Wasm(e));
            },
            Ok(()) => {},
        }
        self.stack.values.extend_zeros(len_results);
        let (base_ptr, frame_ptr) = match self.stack.values.alloc_call_frame(compiled.frame_size) {
            Err(e) => {
                return Err(TaggedTrap::Wasm(e));
            },
            Ok(p) => p,
        };
        self.stack.values.fill_at(base_ptr, params);
        let frame = CallFrame {
            func_body,
            ip: 0,
            frame_ptr,
            base_ptr,
            results: RegisterSpan { head: 0 },
            instance,
        };
        match self.stack.calls.push(frame) {
            Err(e) => Err(TaggedTrap::Wasm(e)),
            Ok(()) => {
                assert(self.stack.values@ =~= zeros(len_results as nat) + params@ + zeros(
                    (compiled.frame_size - params@.len()) as nat,
                ));
                assert(self.stack.calls@ =~= seq![frame]);
                Ok(())
            },
        }
    }

    /// Sets up a root call of a host function on an empty stack: a zeroed
    /// parameter and result buffer that holds the first parameters.
    pub fn init_root_host(&mut self, host_func: HostFuncEntity, params: &Vec<u64>) -> (r: Result<
        (),
        TaggedTrap,
    >)
        requires
            old(self).stack.is_empty(),
        ensures
            final(self).stack.values.max_len() == old(self).stack.values.max_len(),
            final(self).stack.calls == old(self).stack.calls,
            match root_host_setup(old(self).stack.values.max_len(), host_func, params@) {
                Err(e) => r == Err::<(), TaggedTrap>(TaggedTrap::Wasm(e)) && final(self).stack.values@.len()
                    == 0,
                Ok(v) => r is Ok && final(self).stack.values@ == v,
            },
    {
        let len_params = host_func.len_inputs;
        let max_inout = if host_func.len_inputs >= host_func.len_outputs {
            host_func.len_inputs
        } else {
            host_func.len_outputs
        };
        match self.stack.values.reserve(max_inout) {
            Err(e) => {
                return Err(TaggedTrap::Wasm(e));
            },
            Ok(()) => {},
        }
        self.stack.values.extend_zeros(max_inout);
        let n = if params.len() <= len_params {
            params.len()
        } else {
            len_params
        };
        let mut head: Vec<u64> = Vec::new();
        let mut i: usize = 0;
        while i < n
            invariant
                n <= params@.len(),
                i <= n,
                head@ =~= params@.take(i as int),
            decreases n - i,
        {
            head.push(params[i]);
            i = i + 1;
        }
        self.stack.values.fill_at(0, &head);
        Ok(())
    }

    /// Starts a root call of `func`: resets the stack and sets up the call.
    /// A host function is called at once and `Ok(false)` returned; for a Wasm
    /// function `Ok(true)` says that its instructions are to be executed.
    /// No failure here is resumable.
    pub fn start_root_func<C: StoreContext>(
        &mut self,
        ctx: &mut C,
        func: Func,
        params: &Vec<u64>,
        len_results: usize,
    ) -> (r: Result<bool, TaggedTrap>)
        ensures
            final(self).stack.values.max_len() == old(self).stack.values.max_len(),
            final(self).stack.calls.max_depth() == old(self).stack.calls.max_depth(),
            exists|entity: FuncEntity, compiled: Result<CompiledFunc, Error>, res: Result<(), Error>|
                #[trigger] root_started(
                    old(self).stack.values.max_len(),
                    old(self).stack.calls.max_depth(),
                    params@,
                    len_results,
                    entity,
                    compiled,
                    res,
                    final(self).stack.values@,
                    final(self).stack.calls@,
                    r,
                ),
    {
        self.stack.reset();
        let max_len = Ghost(self.stack.values.max_len());
        let max_depth = Ghost(self.stack.calls.max_depth());
        let entity = ctx.resolve_func(func);
        match entity {
            FuncEntity::Wasm(wasm_func) => {
                let compiled = ctx.compiled_func(wasm_func.func_body);
                let r = match compiled {
                    Err(e) => Err(TaggedTrap::Wasm(e)),
                    Ok(c) => match self.init_root_wasm(
                        wasm_func.instance,
                        wasm_func.func_body,
                        c,
                        params,
                        len_results,
                    ) {
                        Err(t) => Err(t),
                        Ok(()) => Ok(true),
                    },
                };
                assert(root_started(
                    max_len@,
                    max_depth@,
                    params@,
                    len_results,
                    entity,
                    compiled,
                    Ok(()),
                    self.stack.values@,
                    self.stack.calls@,
                    r,
                ));
                r
            },
            FuncEntity::Host(host_func) => {
                match self.init_root_host(host_func, params) {
                    Err(t) => {
                        assert(root_started(
                            max_len@,
                            max_depth@,
                            params@,
                            len_results,
                            entity,
                            Err(Error::Internal),
                            Ok(()),
                            self.stack.values@,
                            self.stack.calls@,
                            Err(t),
                        ));
                        return Err(t);
                    },
                    Ok(()) => {},
                }
                let res = self.dispatch_host_func(ctx, host_func, HostFuncCaller::Root);
                let r = match res {
                    Err(e) => Err(TaggedTrap::Wasm(e)),
                    Ok(()) => Ok(false),
                };
                assert(root_started(
                    max_len@,
                    max_depth@,
                    params@,
                    len_results,
                    entity,
                    Err(Error::Internal),
                    res,
                    self.stack.values@,
                    self.stack.calls@,
                    r,
                ));
                r
            },
        }
    }

    /// Writes the values that a resumed host call returned into the result
    /// registers of the parked caller frame.
    pub fn resume_func(&mut self, params: &Vec<u64>, caller_results: RegisterSpan) -> (r: Result<
        (),
        TaggedTrap,
    >)
        requires
            old(self).stack.calls@.len() > 0,
        ensures
            final(self).stack.calls == old(self).stack.calls,
            final(self).stack.values.max_len() == old(self).stack.values.max_len(),
            match span_start(
                old(self).stack.calls@.last().base_ptr,
                caller_results,
                params@.len(),
                old(self).stack.values@.len(),
            ) {
                None => r == Err::<(), TaggedTrap>(TaggedTrap::Wasm(Error::Internal)) && final(self).stack.values@
                    == old(self).stack.values@,
                Some(start) => r is Ok && final(self).stack.values@ == written_at(
                    old(self).stack.values@,
                    start,
                    params@,
                ),
            },
    {
        let caller = match self.stack.calls.peek() {
            Some(frame) => frame,
            None => {
                return Err(TaggedTrap::Wasm(Error::Internal));
            },
        };
        let len = self.stack.values.len();
        match span_start_of(caller.base_offset(), caller_results, params.len(), len) {
            None => Err(TaggedTrap::Wasm(Error::Internal)),
            Some(start) => {
                self.stack.values.fill_at(start, params);
                Ok(())
            },
        }
    }

    /// Hands out the first `len_results` slots as the results and empties the
    /// value stack.
    pub fn write_results_back(&mut self, len_results: usize) -> (r: Vec<u64>)
        requires
            len_results <= old(self).stack.values@.len(),
        ensures
            r@ == old(self).stack.values@.take(len_results as int),
            final(self).stack.values@.len() == 0,
            final(self).stack.values.max_len() == old(self).stack.values.max_len(),
            final(self).stack.calls == old(self).stack.calls,
    {
        let results = self.stack.values.prefix(len_results);
        self.stack.values.reset();
        results
    }
}


/// A parked invocation whose last host call failed; it owns its stack.
#[derive(Debug)]
pub struct ResumableInvocation {
    pub func: Func,
    pub host_func: Func,
    pub host_error: Error,
    pub caller_results: RegisterSpan,
    pub stack: Stack,
}

impl ResumableInvocation {
    /// Records a new host failure of the same invocation.
    pub fn update(&mut self, host_func: Func, host_error: Error, caller_results: RegisterSpan)
        ensures
            final(self).func == old(self).func,
            final(self).stack == old(self).stack,
            final(self).host_func == host_func,
            final(self).host_error == host_error,
            final(self).caller_results == caller_results,
    {
        self.host_func = host_func;
        self.host_error = host_error;
        self.caller_results = caller_results;
    }
}

/// The end of a resumable call: its results, or a parked invocation.
#[derive(Debug)]
pub enum ResumableCall {
    Finished(Vec<u64>),
    Resumable(ResumableInvocation),
}

/// The engine's shared state: the pool of reusable stacks.
#[derive(Debug)]
pub struct EngineInner {
    pub stacks: StackPool,
}

impl EngineInner {
    pub fn new(limits: StackLimits) -> (r: EngineInner)
        ensures
            r.stacks@.len() == 0,
            r.stacks.wf(),
            r.stacks.limits() == limits,
    {
        EngineInner { stacks: StackPool::new(limits) }
    }

    /// Takes a stack for a new invocation.
    pub fn acquire_stack(&mut self) -> (r: Stack)
        requires
            old(self).stacks.wf(),
        ensures
            final(self).stacks.wf(),
            final(self).stacks.limits() == old(self).stacks.limits(),
            r.is_empty(),
            r.has_limits(old(self).stacks.limits()),
            old(self).stacks@.len() == 0 ==> final(self).stacks@ == old(self).stacks@,
            old(self).stacks@.len() > 0 ==> final(self).stacks@ == old(self).stacks@.drop_last(),
    {
        self.stacks.reuse_or_new()
    }

    /// Ends a call that cannot be resumed: the stack goes back to the pool
    /// and a trap becomes its error.
    pub fn finish_call(&mut self, stack: Stack, outcome: Result<Vec<u64>, TaggedTrap>) -> (r:
        Result<Vec<u64>, Error>)
        requires
            old(self).stacks.wf(),
        ensures
            final(self).stacks.wf(),
            final(self).stacks.limits() == old(self).stacks.limits(),
            final(self).stacks@.len() == old(self).stacks@.len() + 1,
            final(self).stacks@.last().is_empty(),
            match outcome {
                Ok(v) => r == Ok::<Vec<u64>, Error>(v),
                Err(t) => r == Err::<Vec<u64>, Error>(trap_error(t)),
            },
    {
        self.stacks.recycle(stack);
        match outcome {
            Ok(v) => Ok(v),
            Err(t) => Err(t.into_error()),
        }
    }

    /// Ends one run of a resumable call of `func`: success and traps that
    /// cannot be resumed return the stack to the pool; a host failure parks
    /// the stack in a resumable invocation.
    pub fn finish_resumable(
        &mut self,
        func: Func,
        stack: Stack,
        outcome: Result<Vec<u64>, TaggedTrap>,
    ) -> (r: Result<ResumableCall, Error>)
        requires
            old(self).stacks.wf(),
        ensures
            final(self).stacks.wf(),
            final(self).stacks.limits() == old(self).stacks.limits(),
            match outcome {
                Ok(v) => r matches Ok(ResumableCall::Finished(w)) && w == v
                    && final(self).stacks@.len() == old(self).stacks@.len() + 1,
                Err(TaggedTrap::Wasm(e)) => r == Err::<ResumableCall, Error>(e)
                    && final(self).stacks@.len() == old(self).stacks@.len() + 1
                    && final(self).stacks@.last().is_empty(),
                Err(TaggedTrap::Host { host_func, host_error, caller_results }) => r matches Ok(
                    ResumableCall::Resumable(inv),
                ) && inv.func == func && inv.host_func == host_func && inv.host_error == host_error
                    && inv.caller_results == caller_results && inv.stack == stack && final(self).stacks@ == old(self).stacks@,
            },
    {
        match outcome {
            Ok(v) => {
                self.stacks.recycle(stack);
                Ok(ResumableCall::Finished(v))
            },
            Err(TaggedTrap::Wasm(e)) => {
                self.stacks.recycle(stack);
                Err(e)
            },
            Err(TaggedTrap::Host { host_func, host_error, caller_results }) => {
                Ok(
                    ResumableCall::Resumable(
                        ResumableInvocation { func, host_func, host_error, caller_results, stack },
                    ),
                )
            },
        }
    }

    /// Ends one run of a resumed invocation: as `finish_resumable`, except
    /// that a new host failure updates the invocation in place.
    pub fn finish_resume(
        &mut self,
        invocation: ResumableInvocation,
        outcome: Result<Vec<u64>, TaggedTrap>,
    ) -> (r: Result<ResumableCall, Error>)
        requires
            old(self).stacks.wf(),
        ensures
            final(self).stacks.wf(),
            final(self).stacks.limits() == old(self).stacks.limits(),
            match outcome {
                Ok(v) => r matches Ok(ResumableCall::Finished(w)) && w == v
                    && final(self).stacks@.len() == old(self).stacks@.len() + 1,
                Err(TaggedTrap::Wasm(e)) => r == Err::<ResumableCall, Error>(e)
                    && final(self).stacks@.len() == old(self).stacks@.len() + 1
                    && final(self).stacks@.last().is_empty(),
                Err(TaggedTrap::Host { host_func, host_error, caller_results }) => r matches Ok(
                    ResumableCall::Resumable(inv),
                ) && inv.func == invocation.func && inv.host_func == host_func && inv.host_error
                    == host_error && inv.caller_results == caller_results && inv.stack
                    == invocation.stack && final(self).stacks@ == old(self).stacks@,
            },
    {
        let mut invocation = invocation;
        match outcome {
            Ok(v) => {
                self.stacks.recycle(invocation.stack);
                Ok(ResumableCall::Finished(v))
            },
            Err(TaggedTrap::Wasm(e)) => {
                self.stacks.recycle(invocation.stack);
                Err(e)
            },
            Err(TaggedTrap::Host { host_func, host_error, caller_results }) => {
                invocation.update(host_func, host_error, caller_results);
                Ok(ResumableCall::Resumable(invocation))
            },
        }
    }
}


/// A host function that takes no parameters and returns `n` results uses a
/// parameter and result buffer of exactly `n` slots.
pub proof fn lemma_nullary_host_buffer(host_func: HostFuncEntity)
    requires
        host_func.len_inputs == 0,
    ensures
        max_inout(host_func) == host_func.len_outputs,
{
}

/// Resuming a parked caller with values `v` leaves its registers as a
/// successful host call whose first outputs are `v` would have: both write
/// `v` into the same result window.
pub proof fn lemma_resume_matches_host_return(
    values: Seq<u64>,
    caller_base: usize,
    caller_results: RegisterSpan,
    v: Seq<u64>,
    buffer: Seq<u64>,
)
    requires
        v.len() <= buffer.len(),
        buffer.take(v.len() as int) == v,
    ensures
        span_start(caller_base, caller_results, v.len(), values.len()) matches Some(start)
            ==> written_at(values, start, v) == written_at(values, start, buffer.take(v.len() as int)),
{
}

} // verus!
