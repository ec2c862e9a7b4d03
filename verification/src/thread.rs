//! Threads, frames, and the fetch-decode-execute cycle.
//!
//! A thread owns a program counter — current class, method, and
//! instruction index — and a stack of call frames. One call of
//! [`Thread::exec_one`] advances the thread by exactly one instruction.
//! Branch offsets, switch offsets, and exception-table positions all
//! address the decoded instruction sequence by index.

use vstd::prelude::*;
use crate::class::{Class, ClassModel, MethodIndex, MethodModel, MonitorModel,
    class_with_monitor, class_with_static_values,
    spec_class_name_at, spec_constant_at, spec_field_index, spec_method_index, spec_utf8_at};
use crate::code::{CodeModel, ExceptionTableEntry, Instr};
use crate::constant::ConstantModel;
use crate::error::Error;
use crate::interp::{CtxModel, InterpContext, spec_class_index};
use crate::value::{Object, ObjectModel, Value};
use vstd::wrapping::i32_specs;
use vstd::wrapping::u32_specs;

verus! {

/// A program counter: the class (by registry index), the method within
/// it, and the index of the next instruction in the decoded sequence.
#[derive(Clone, Copy, Debug, PartialEq, Eq, Structural)]
pub struct Pc {
    pub class: usize,
    pub method: MethodIndex,
    pub instr: usize,
}

impl Pc {
    /// A program counter at the first instruction of a method.
    pub fn new(class: usize, method: MethodIndex) -> (r: Pc)
        ensures
            r == (Pc { class, method, instr: 0 }),
    {
        Pc { class, method, instr: 0 }
    }

    /// Advances past the current instruction and returns the new index.
    pub fn next(&mut self) -> (r: usize)
        requires
            old(self).instr < usize::MAX,
        ensures
            *final(self) == (Pc {
                class: old(self).class,
                method: old(self).method,
                instr: (old(self).instr + 1) as usize,
            }),
            r == final(self).instr,
    {
        self.instr = self.instr + 1;
        self.instr
    }

    /// The current instruction index.
    pub fn pc(&self) -> (r: usize)
        ensures
            r == self.instr,
    {
        self.instr
    }
}

/// One method activation: its local slots, its operand stack, the
/// stack-depth bound of its method, and — for every frame but the root —
/// the caller's program counter at the invocation site.
#[derive(Debug)]
pub struct Frame {
    pub return_pc: Option<Pc>,
    pub max_stack: usize,
    pub locals: Vec<Value>,
    pub stack: Vec<Value>,
}

/// The mathematical model of a [`Frame`].
#[verifier::ext_equal]
pub ghost struct FrameModel {
    pub return_pc: Option<Pc>,
    pub max_stack: usize,
    pub locals: Seq<Value>,
    pub stack: Seq<Value>,
}

impl View for Frame {
    type V = FrameModel;

    open spec fn view(&self) -> FrameModel {
        FrameModel {
            return_pc: self.return_pc,
            max_stack: self.max_stack,
            locals: self.locals@,
            stack: self.stack@,
        }
    }
}

/// The method a [`MethodIndex`] addresses within a class.
pub open spec fn spec_method_at(c: ClassModel, ix: MethodIndex) -> Option<MethodModel> {
    match ix {
        MethodIndex::Dynamic(i) => if i < c.methods.len() {
            Some(c.methods[i as int])
        } else {
            None
        },
        MethodIndex::Static(i) => if i < c.static_methods.len() {
            Some(c.static_methods[i as int])
        } else {
            None
        },
    }
}

/// The code a program counter executes in.
pub open spec fn spec_code_at(cs: Seq<ClassModel>, pc: Pc) -> Option<CodeModel> {
    if pc.class < cs.len() {
        match spec_method_at(cs[pc.class as int], pc.method) {
            Some(m) => m.code,
            None => None,
        }
    } else {
        None
    }
}

/// A fresh frame for a method with the given code: all local slots
/// zero-initialized, an empty operand stack.
pub open spec fn spec_new_frame(code: CodeModel, ret: Option<Pc>) -> FrameModel {
    FrameModel {
        return_pc: ret,
        max_stack: code.max_stack as usize,
        locals: Seq::new(code.max_locals as nat, |i: int| Value::Int(0)),
        stack: Seq::empty(),
    }
}

/// The frame model `f` with its operand stack replaced.
pub open spec fn frame_with_stack(f: FrameModel, stack: Seq<Value>) -> FrameModel {
    FrameModel { return_pc: f.return_pc, max_stack: f.max_stack, locals: f.locals, stack }
}

/// The frame model `f` with its locals replaced.
pub open spec fn frame_with_locals(f: FrameModel, locals: Seq<Value>) -> FrameModel {
    FrameModel { return_pc: f.return_pc, max_stack: f.max_stack, locals, stack: f.stack }
}

impl Frame {
    /// A fresh frame sized for the method a [`MethodIndex`] addresses;
    /// fails with `InvalidClass` when there is no such method or it has
    /// no code.
    pub fn for_method(class: &Class, method: MethodIndex) -> (r: Result<Frame, Error>)
        ensures
            match r {
                Ok(f) => spec_method_at(class@, method) matches Some(m) && m.code matches Some(code)
                    && f@ == spec_new_frame(code, None),
                Err(e) => e == Error::InvalidClass && !(spec_method_at(class@, method) matches Some(
                    m,
                ) && m.code is Some),
            },
    {
        let m = match class.method(method) {
            Some(m) => m,
            None => {
                return Err(Error::InvalidClass);
            },
        };
        let code = match m.code() {
            Some(c) => c,
            None => {
                return Err(Error::InvalidClass);
            },
        };
        let max_locals = code.max_locals as usize;
        let max_stack = code.max_stack as usize;
        let mut locals: Vec<Value> = Vec::new();
        let mut k: usize = 0;
        while k < max_locals
            invariant
                k <= max_locals,
                locals@ == Seq::new(k as nat, |i: int| Value::Int(0)),
            decreases max_locals - k,
        {
            locals.push(Value::Int(0));
            k = k + 1;
            proof {
                assert(locals@ =~= Seq::new(k as nat, |i: int| Value::Int(0)));
            }
        }
        Ok(Frame { return_pc: None, max_stack, locals, stack: Vec::new() })
    }

    /// A fresh callee frame that will return to `return_pc`.
    pub fn new(return_pc: Pc, call_class: &Class, call_method: MethodIndex) -> (r: Result<
        Frame,
        Error,
    >)
        ensures
            match r {
                Ok(f) => spec_method_at(call_class@, call_method) matches Some(m)
                    && m.code matches Some(code) && f@ == spec_new_frame(code, Some(return_pc)),
                Err(e) => e == Error::InvalidClass && !(spec_method_at(
                    call_class@,
                    call_method,
                ) matches Some(m) && m.code is Some),
            },
    {
        let mut f = Frame::for_method(call_class, call_method)?;
        f.return_pc = Some(return_pc);
        Ok(f)
    }

    /// Writes a local slot. The slot must exist: the slot count is fixed
    /// at frame creation by the method's `max_locals`.
    pub fn set_local(&mut self, index: usize, value: Value)
        requires
            index < old(self)@.locals.len(),
        ensures
            final(self)@ == frame_with_locals(
                old(self)@,
                old(self)@.locals.update(index as int, value),
            ),
    {
        self.locals.set(index, value);
    }

    /// Reads a local slot, which must exist.
    pub fn get_local(&self, index: usize) -> (r: Value)
        requires
            index < self@.locals.len(),
        ensures
            r == self@.locals[index as int],
    {
        self.locals[index]
    }

    /// Pushes onto the operand stack, which must not be full: the engine
    /// never lets the stack exceed the method's `max_stack`.
    pub fn push(&mut self, value: Value)
        requires
            old(self)@.stack.len() < old(self)@.max_stack,
        ensures
            final(self)@ == frame_with_stack(old(self)@, old(self)@.stack.push(value)),
    {
        self.stack.push(value);
    }

    /// Pops the top of the operand stack, which must not be empty.
    pub fn pop(&mut self) -> (r: Value)
        requires
            old(self)@.stack.len() > 0,
        ensures
            r == old(self)@.stack.last(),
            final(self)@ == frame_with_stack(old(self)@, old(self)@.stack.drop_last()),
    {
        let r = match self.stack.pop() {
            Some(v) => v,
            None => {
                proof {
                    assert(false);
                }
                Value::Int(0)
            },
        };
        proof {
            assert(self.stack@ =~= old(self).stack@.drop_last());
        }
        r
    }
}

/// A thread: its program counter and its stack of call frames. A thread
/// is runnable while its frame stack is non-empty.
#[derive(Debug)]
pub struct Thread {
    pub pc: Pc,
    pub stack: Vec<Frame>,
}

/// The mathematical model of a [`Thread`].
#[verifier::ext_equal]
pub ghost struct ThreadModel {
    pub pc: Pc,
    pub frames: Seq<FrameModel>,
}

/// The view of a frame stack.
pub open spec fn frames_model(v: Seq<Frame>) -> Seq<FrameModel> {
    v.map_values(|f: Frame| f@)
}

impl View for Thread {
    type V = ThreadModel;

    open spec fn view(&self) -> ThreadModel {
        ThreadModel { pc: self.pc, frames: frames_model(self.stack@) }
    }
}

/// A fresh thread at the first instruction of a method, with one root
/// frame.
pub open spec fn spec_new_thread(class: usize, method: MethodIndex, code: CodeModel) -> ThreadModel {
    ThreadModel {
        pc: Pc { class, method, instr: 0 },
        frames: seq![spec_new_frame(code, None)],
    }
}

impl Thread {
    /// A thread whose root frame runs the method a [`MethodIndex`]
    /// addresses in the class at registry index `class_id`; fails with
    /// `InvalidClass` when the method is missing or has no code.
    pub fn new(class_id: usize, class: &Class, method: MethodIndex) -> (r: Result<Thread, Error>)
        ensures
            match r {
                Ok(t) => spec_method_at(class@, method) matches Some(m) && m.code matches Some(code)
                    && t@ == spec_new_thread(class_id, method, code),
                Err(e) => e == Error::InvalidClass && !(spec_method_at(class@, method) matches Some(
                    m,
                ) && m.code is Some),
            },
    {
        let frame = Frame::for_method(class, method)?;
        let mut stack: Vec<Frame> = Vec::new();
        stack.push(frame);
        let t = Thread { pc: Pc::new(class_id, method), stack };
        proof {
            assert(t@.frames =~= seq![spec_new_frame(spec_method_at(class@, method)->Some_0.code->Some_0, None)]);
        }
        Ok(t)
    }

    /// Whether the thread still has frames to run.
    pub fn is_running(&self) -> (r: bool)
        ensures
            r == (self@.frames.len() > 0),
    {
        self.stack.len() > 0
    }

    /// The method the program counter stands in, when resolvable.
    pub fn method<'a>(&self, ctx: &'a InterpContext) -> (r: Option<&'a crate::class::Method>)
        ensures
            match r {
                Some(m) => self@.pc.class < ctx@.classes.len() && spec_method_at(
                    ctx@.classes[self@.pc.class as int],
                    self@.pc.method,
                ) == Some(m@),
                None => !(self@.pc.class < ctx@.classes.len() && spec_method_at(
                    ctx@.classes[self@.pc.class as int],
                    self@.pc.method,
                ) is Some),
            },
    {
        if self.pc.class < ctx.classes.len() {
            ctx.classes[self.pc.class].method(self.pc.method)
        } else {
            None
        }
    }

    /// A view of the current (topmost) frame.
    pub fn current_frame(&self) -> (r: Option<&Frame>)
        ensures
            match r {
                Some(f) => self@.frames.len() > 0 && f@ == self@.frames.last(),
                None => self@.frames.len() == 0,
            },
    {
        if self.stack.len() > 0 {
            Some(&self.stack[self.stack.len() - 1])
        } else {
            None
        }
    }
}

/// What one instruction step does: the states after it, or the failure.
#[verifier::ext_equal]
pub ghost enum StepSpec {
    /// The thread keeps running; the registry, heap and thread are now
    /// these.
    Next { classes: Seq<ClassModel>, heap: Seq<ObjectModel>, thread: ThreadModel },
    /// A return popped the root frame: the thread is done.
    Terminated { thread: ThreadModel },
    /// An unhandled runtime fault killed the thread.
    Died { thread: ThreadModel },
    /// A monitor the thread must wait for: nothing changes and the
    /// scheduler moves on; the thread retries the instruction on its
    /// next turn.
    Blocked,
    /// A structural malformation: nothing changes and this error is
    /// reported.
    Fail { error: Error },
}

/// The outcome of unwinding a runtime fault through the frame stack.
#[verifier::ext_equal]
pub ghost enum UnwindSpec {
    /// A frame's exception table caught it: the thread resumes here,
    /// the operand stack holding only the thrown reference.
    Caught(ThreadModel),
    /// No frame caught it: the thread dies with its frames discarded.
    Dead,
}

/// The name of the class thrown on an arithmetic fault.
pub open spec fn arithmetic_fault_name() -> Seq<u8> {
    // "java/lang/ArithmeticException"
    seq![106u8, 97u8, 118u8, 97u8, 47u8, 108u8, 97u8, 110u8, 103u8, 47u8, 65u8, 114u8, 105u8,
        116u8, 104u8, 109u8, 101u8, 116u8, 105u8, 99u8, 69u8, 120u8, 99u8, 101u8, 112u8, 116u8,
        105u8, 111u8, 110u8]
}

/// Whether one exception-table entry catches a fault of class `fault`
/// raised at instruction `at`: the range covers `at`, the catch type is
/// the wildcard 0 or resolves to the fault's class name, and the handler
/// entry point lies inside the code.
pub open spec fn spec_handler_match(
    e: ExceptionTableEntry,
    pool: Seq<ConstantModel>,
    at: usize,
    fault: Seq<u8>,
    code_len: int,
) -> bool {
    e.start_pc <= at < e.end_pc && (e.catch_type == 0 || spec_class_name_at(
        pool,
        e.catch_type as int,
    ) == Some(fault)) && (e.handler_pc as int) < code_len
}

/// The first exception-table entry at or after `k` that catches.
pub open spec fn spec_find_handler(
    tab: Seq<ExceptionTableEntry>,
    pool: Seq<ConstantModel>,
    at: usize,
    fault: Seq<u8>,
    code_len: int,
    k: int,
) -> Option<int>
    decreases tab.len() - k,
{
    if k < 0 || k >= tab.len() {
        None
    } else if spec_handler_match(tab[k], pool, at, fault, code_len) {
        Some(k)
    } else {
        spec_find_handler(tab, pool, at, fault, code_len, k + 1)
    }
}

/// Unwinds a fault of class `fault`, thrown as heap reference `obj`:
/// each frame whose code is resolvable, whose operand stack can hold one
/// value, and whose exception table has a catching entry resumes at that
/// entry's handler with the stack reset to the thrown reference; any
/// other frame is popped and the search repeats at the caller; a thread
/// with no catching frame dies.
pub open spec fn spec_unwind(cs: Seq<ClassModel>, t: ThreadModel, fault: Seq<u8>, obj: usize) -> UnwindSpec
    decreases t.frames.len(),
{
    if t.frames.len() == 0 {
        UnwindSpec::Dead
    } else {
        let f = t.frames.last();
        let found = match spec_code_at(cs, t.pc) {
            Some(code) => if f.max_stack >= 1 {
                match spec_find_handler(
                    code.exception_table,
                    cs[t.pc.class as int].constant_pool,
                    t.pc.instr,
                    fault,
                    code.code.len() as int,
                    0,
                ) {
                    Some(h) => Some(code.exception_table[h].handler_pc),
                    None => None,
                }
            } else {
                None
            },
            None => None,
        };
        match found {
            Some(handler_pc) => UnwindSpec::Caught(
                ThreadModel {
                    pc: Pc { class: t.pc.class, method: t.pc.method, instr: handler_pc as usize },
                    frames: t.frames.update(
                        t.frames.len() - 1,
                        frame_with_stack(f, seq![Value::Reference(obj)]),
                    ),
                },
            ),
            None => match f.return_pc {
                None => UnwindSpec::Dead,
                Some(rpc) => spec_unwind(
                    cs,
                    ThreadModel { pc: rpc, frames: t.frames.drop_last() },
                    fault,
                    obj,
                ),
            },
        }
    }
}

/// Raising a fault: the fault object is allocated at the end of the heap
/// when some frame catches it; a thread nobody catches for dies with its
/// frames discarded and the heap unchanged.
pub open spec fn spec_raise(
    cs: Seq<ClassModel>,
    heap: Seq<ObjectModel>,
    t: ThreadModel,
    fault: Seq<u8>,
) -> StepSpec {
    match spec_unwind(cs, t, fault, heap.len() as usize) {
        UnwindSpec::Caught(t2) => StepSpec::Next {
            classes: cs,
            heap: heap.push(ObjectModel { class_name: fault, class: None, fields: Seq::empty() }),
            thread: t2,
        },
        UnwindSpec::Dead => StepSpec::Died {
            thread: ThreadModel { pc: t.pc, frames: Seq::empty() },
        },
    }
}

/// The thread with its top frame replaced and the program counter past
/// the current instruction.
pub open spec fn spec_advance(t: ThreadModel, f: FrameModel) -> ThreadModel {
    ThreadModel {
        pc: Pc { class: t.pc.class, method: t.pc.method, instr: (t.pc.instr + 1) as usize },
        frames: t.frames.update(t.frames.len() - 1, f),
    }
}

/// The thread with its top frame replaced and the program counter moved
/// to `target`.
pub open spec fn spec_jump(t: ThreadModel, f: FrameModel, target: usize) -> ThreadModel {
    ThreadModel {
        pc: Pc { class: t.pc.class, method: t.pc.method, instr: target },
        frames: t.frames.update(t.frames.len() - 1, f),
    }
}

/// Pushing one value and advancing, within the frame's stack bound.
pub open spec fn spec_push_step(
    cs: Seq<ClassModel>,
    heap: Seq<ObjectModel>,
    t: ThreadModel,
    f: FrameModel,
    v: Value,
) -> StepSpec {
    if f.stack.len() < f.max_stack {
        StepSpec::Next {
            classes: cs,
            heap,
            thread: spec_advance(t, frame_with_stack(f, f.stack.push(v))),
        }
    } else {
        StepSpec::Fail { error: Error::InvalidClass }
    }
}

/// Loading a local slot that must hold an `Int`.
pub open spec fn spec_iload_step(
    cs: Seq<ClassModel>,
    heap: Seq<ObjectModel>,
    t: ThreadModel,
    f: FrameModel,
    idx: int,
) -> StepSpec {
    if 0 <= idx < f.locals.len() && f.locals[idx] is Int {
        spec_push_step(cs, heap, t, f, f.locals[idx])
    } else {
        StepSpec::Fail { error: Error::InvalidClass }
    }
}

/// Loading a local slot that must hold a `Reference`.
pub open spec fn spec_aload_step(
    cs: Seq<ClassModel>,
    heap: Seq<ObjectModel>,
    t: ThreadModel,
    f: FrameModel,
    idx: int,
) -> StepSpec {
    if 0 <= idx < f.locals.len() && f.locals[idx] is Reference {
        spec_push_step(cs, heap, t, f, f.locals[idx])
    } else {
        StepSpec::Fail { error: Error::InvalidClass }
    }
}

/// Popping an `Int` into a local slot.
pub open spec fn spec_istore_step(
    cs: Seq<ClassModel>,
    heap: Seq<ObjectModel>,
    t: ThreadModel,
    f: FrameModel,
    idx: int,
) -> StepSpec {
    if f.stack.len() > 0 && 0 <= idx < f.locals.len() && f.stack.last() is Int {
        StepSpec::Next {
            classes: cs,
            heap,
            thread: spec_advance(
                t,
                FrameModel {
                    return_pc: f.return_pc,
                    max_stack: f.max_stack,
                    locals: f.locals.update(idx, f.stack.last()),
                    stack: f.stack.drop_last(),
                },
            ),
        }
    } else {
        StepSpec::Fail { error: Error::InvalidClass }
    }
}

/// Popping a `Reference` into a local slot.
pub open spec fn spec_astore_step(
    cs: Seq<ClassModel>,
    heap: Seq<ObjectModel>,
    t: ThreadModel,
    f: FrameModel,
    idx: int,
) -> StepSpec {
    if f.stack.len() > 0 && 0 <= idx < f.locals.len() && f.stack.last() is Reference {
        StepSpec::Next {
            classes: cs,
            heap,
            thread: spec_advance(
                t,
                FrameModel {
                    return_pc: f.return_pc,
                    max_stack: f.max_stack,
                    locals: f.locals.update(idx, f.stack.last()),
                    stack: f.stack.drop_last(),
                },
            ),
        }
    } else {
        StepSpec::Fail { error: Error::InvalidClass }
    }
}

/// The integer binary operations, each with wrap-around semantics.
#[derive(Clone, Copy, Debug, PartialEq, Eq, Structural)]
pub enum IntBinop {
    Add,
    Sub,
    Mul,
    And,
    Or,
    Xor,
    Shl,
    Shr,
    Ushr,
}

/// The result of one wrapping integer binary operation.
pub open spec fn spec_ibinop(op: IntBinop, x: i32, y: i32) -> i32 {
    match op {
        IntBinop::Add => i32_specs::wrapping_add(x, y),
        IntBinop::Sub => i32_specs::wrapping_sub(x, y),
        IntBinop::Mul => i32_specs::wrapping_mul(x, y),
        IntBinop::And => x & y,
        IntBinop::Or => x | y,
        IntBinop::Xor => x ^ y,
        IntBinop::Shl => i32_specs::wrapping_shl(x, y as u32),
        IntBinop::Shr => i32_specs::wrapping_shr(x, y as u32),
        IntBinop::Ushr => u32_specs::wrapping_shr(x as u32, y as u32) as i32,
    }
}

/// Popping two `Int`s and pushing the operation's result.
pub open spec fn spec_ibinop_step(
    cs: Seq<ClassModel>,
    heap: Seq<ObjectModel>,
    t: ThreadModel,
    f: FrameModel,
    op: IntBinop,
) -> StepSpec {
    if f.stack.len() >= 2 && f.stack.last() is Int && f.stack[f.stack.len() - 2] is Int {
        let y = f.stack.last()->Int_0;
        let x = f.stack[f.stack.len() - 2]->Int_0;
        StepSpec::Next {
            classes: cs,
            heap,
            thread: spec_advance(
                t,
                frame_with_stack(
                    f,
                    f.stack.drop_last().drop_last().push(Value::Int(spec_ibinop(op, x, y))),
                ),
            ),
        }
    } else {
        StepSpec::Fail { error: Error::InvalidClass }
    }
}

/// Integer division or remainder: truncated toward zero, wrapping on the
/// one overflowing pair, and an arithmetic fault on a zero divisor.
pub open spec fn spec_idiv_step(
    cs: Seq<ClassModel>,
    heap: Seq<ObjectModel>,
    t: ThreadModel,
    f: FrameModel,
    rem: bool,
) -> StepSpec {
    if f.stack.len() >= 2 && f.stack.last() is Int && f.stack[f.stack.len() - 2] is Int {
        let y = f.stack.last()->Int_0;
        let x = f.stack[f.stack.len() - 2]->Int_0;
        if y == 0 {
            spec_raise(cs, heap, t, arithmetic_fault_name())
        } else {
            let q = if rem {
                match x.checked_rem(y) {
                    Some(v) => v,
                    None => 0i32,
                }
            } else {
                match x.checked_div(y) {
                    Some(v) => v,
                    None => i32::MIN,
                }
            };
            StepSpec::Next {
                classes: cs,
                heap,
                thread: spec_advance(
                    t,
                    frame_with_stack(f, f.stack.drop_last().drop_last().push(Value::Int(q))),
                ),
            }
        }
    } else {
        StepSpec::Fail { error: Error::InvalidClass }
    }
}

/// The integer comparisons a conditional branch can test.
#[derive(Clone, Copy, Debug, PartialEq, Eq, Structural)]
pub enum IntCond {
    Eq,
    Ne,
    Lt,
    Ge,
    Gt,
    Le,
}

/// One integer comparison.
pub open spec fn spec_icond(c: IntCond, x: i32, y: i32) -> bool {
    match c {
        IntCond::Eq => x == y,
        IntCond::Ne => x != y,
        IntCond::Lt => x < y,
        IntCond::Ge => x >= y,
        IntCond::Gt => x > y,
        IntCond::Le => x <= y,
    }
}

/// A branch to `pc.instr + off`, which must land inside the code.
pub open spec fn spec_branch_step(
    cs: Seq<ClassModel>,
    heap: Seq<ObjectModel>,
    t: ThreadModel,
    f: FrameModel,
    code_len: int,
    off: int,
    taken: bool,
) -> StepSpec {
    if taken {
        let target = t.pc.instr + off;
        if 0 <= target < code_len {
            StepSpec::Next { classes: cs, heap, thread: spec_jump(t, f, target as usize) }
        } else {
            StepSpec::Fail { error: Error::InvalidClass }
        }
    } else if t.pc.instr + 1 < code_len || t.pc.instr + 1 == code_len {
        StepSpec::Next { classes: cs, heap, thread: spec_advance(t, f) }
    } else {
        StepSpec::Fail { error: Error::InvalidClass }
    }
}

/// The first key at or after `k` in a match table equal to `key`.
pub open spec fn spec_lookup_pair(pairs: Seq<(i32, i32)>, key: i32, k: int) -> Option<i32>
    decreases pairs.len() - k,
{
    if k < 0 || k >= pairs.len() {
        None
    } else if pairs[k].0 == key {
        Some(pairs[k].1)
    } else {
        spec_lookup_pair(pairs, key, k + 1)
    }
}

/// The (class name, member name, descriptor) triple behind a name-and-
/// type chain.
pub open spec fn spec_ref_parts(pool: Seq<ConstantModel>, ci: u16, nti: u16) -> Option<
    (Seq<u8>, Seq<u8>, Seq<u8>),
> {
    match (spec_class_name_at(pool, ci as int), spec_constant_at(pool, nti as int)) {
        (Some(cn), Some(ConstantModel::NameAndType { name_index, descriptor_index })) => match (
            spec_utf8_at(pool, name_index as int),
            spec_utf8_at(pool, descriptor_index as int),
        ) {
            (Some(n), Some(d)) => Some((cn, n, d)),
            _ => None,
        },
        _ => None,
    }
}

/// Resolves a `FieldRef` constant to its triple.
pub open spec fn spec_field_ref(pool: Seq<ConstantModel>, idx: int) -> Option<
    (Seq<u8>, Seq<u8>, Seq<u8>),
> {
    match spec_constant_at(pool, idx) {
        Some(ConstantModel::FieldRef { class_index, name_and_type_index }) => spec_ref_parts(
            pool,
            class_index,
            name_and_type_index,
        ),
        _ => None,
    }
}

/// Resolves a `MethodRef` constant to its triple.
pub open spec fn spec_method_ref(pool: Seq<ConstantModel>, idx: int) -> Option<
    (Seq<u8>, Seq<u8>, Seq<u8>),
> {
    match spec_constant_at(pool, idx) {
        Some(ConstantModel::MethodRef { class_index, name_and_type_index }) => spec_ref_parts(
            pool,
            class_index,
            name_and_type_index,
        ),
        _ => None,
    }
}

/// The number of local slots a method descriptor's parameters occupy:
/// longs and doubles take two, everything else — references and arrays
/// included — takes one. `None` for a malformed descriptor.
pub open spec fn spec_arg_slots(d: Seq<u8>, k: int, in_array: bool) -> Option<int>
    decreases d.len() - k,
{
    if k < 0 || k >= d.len() {
        None
    } else {
        let c = d[k];
        if c == 41 {  // ')'
            if in_array {
                None
            } else {
                Some(0)
            }
        } else if c == 91 {  // '['
            spec_arg_slots(d, k + 1, true)
        } else if c == 76 {  // 'L'
            spec_arg_ref(d, k + 1)
        } else if c == 74 || c == 68 {  // 'J' | 'D'
            match spec_arg_slots(d, k + 1, false) {
                Some(n) => Some(
                    n + if in_array {
                        1int
                    } else {
                        2int
                    },
                ),
                None => None,
            }
        } else if c == 66 || c == 67 || c == 70 || c == 73 || c == 83 || c == 90 {
            // B C F I S Z
            match spec_arg_slots(d, k + 1, false) {
                Some(n) => Some(n + 1),
                None => None,
            }
        } else {
            None
        }
    }
}

/// Skips a reference type's class name up to its `;`, counting one slot.
pub open spec fn spec_arg_ref(d: Seq<u8>, k: int) -> Option<int>
    decreases d.len() - k,
{
    if k < 0 || k >= d.len() {
        None
    } else if d[k] == 59 {  // ';'
        match spec_arg_slots(d, k + 1, false) {
            Some(n) => Some(n + 1),
            None => None,
        }
    } else {
        spec_arg_ref(d, k + 1)
    }
}

/// The parameter slot count of a whole method descriptor.
pub open spec fn spec_method_arg_slots(d: Seq<u8>) -> Option<int> {
    if d.len() > 0 && d[0] == 40 {  // '('
        spec_arg_slots(d, 1, false)
    } else {
        None
    }
}

/// Reading a static field: the `FieldRef` at `n` resolves to a triple,
/// the named class is loaded, it has the static field, and the value in
/// that field's cell is pushed.
pub open spec fn spec_getstatic_step(
    cs: Seq<ClassModel>,
    heap: Seq<ObjectModel>,
    t: ThreadModel,
    f: FrameModel,
    n: u16,
) -> StepSpec {
    match spec_field_ref(cs[t.pc.class as int].constant_pool, n as int) {
        None => StepSpec::Fail { error: Error::InvalidClass },
        Some((cn, fname, fdesc)) => match spec_class_index(cs, cn) {
            None => StepSpec::Fail { error: Error::ClassNotFound },
            Some(ci) => match spec_field_index(cs[ci].static_fields, fname, fdesc) {
                None => StepSpec::Fail { error: Error::InvalidClass },
                Some(fi) => if fi < cs[ci].static_values.len() {
                    spec_push_step(cs, heap, t, f, cs[ci].static_values[fi])
                } else {
                    StepSpec::Fail { error: Error::InvalidClass }
                },
            },
        },
    }
}

/// Writing a static field: resolves like a read, pops the value, and
/// updates the named class's cell; every thread holding the registry
/// sees the new value.
pub open spec fn spec_putstatic_step(
    cs: Seq<ClassModel>,
    heap: Seq<ObjectModel>,
    t: ThreadModel,
    f: FrameModel,
    n: u16,
) -> StepSpec {
    match spec_field_ref(cs[t.pc.class as int].constant_pool, n as int) {
        None => StepSpec::Fail { error: Error::InvalidClass },
        Some((cn, fname, fdesc)) => match spec_class_index(cs, cn) {
            None => StepSpec::Fail { error: Error::ClassNotFound },
            Some(ci) => match spec_field_index(cs[ci].static_fields, fname, fdesc) {
                None => StepSpec::Fail { error: Error::InvalidClass },
                Some(fi) => if fi < cs[ci].static_values.len() && f.stack.len() > 0 {
                    StepSpec::Next {
                        classes: cs.update(
                            ci,
                            class_with_static_values(
                                cs[ci],
                                cs[ci].static_values.update(fi, f.stack.last()),
                            ),
                        ),
                        heap,
                        thread: spec_advance(t, frame_with_stack(f, f.stack.drop_last())),
                    }
                } else {
                    StepSpec::Fail { error: Error::InvalidClass }
                },
            },
        },
    }
}

/// Invoking a static method: the `MethodRef` resolves, the named class is
/// loaded and has the static method, the method has code, the descriptor
/// gives the argument slot count, the caller's stack holds that many
/// values, and a fresh frame takes them as its first locals — receiver
/// none, arguments in order — with the caller's program counter as the
/// return address.
pub open spec fn spec_invokestatic_step(
    cs: Seq<ClassModel>,
    heap: Seq<ObjectModel>,
    t: ThreadModel,
    f: FrameModel,
    n: u16,
) -> StepSpec {
    match spec_method_ref(cs[t.pc.class as int].constant_pool, n as int) {
        None => StepSpec::Fail { error: Error::InvalidClass },
        Some((cn, mname, mdesc)) => match spec_class_index(cs, cn) {
            None => StepSpec::Fail { error: Error::ClassNotFound },
            Some(ci) => match spec_method_index(cs[ci].static_methods, mname, mdesc) {
                None => StepSpec::Fail { error: Error::InvalidClass },
                Some(mi) => {
                    let m = cs[ci].static_methods[mi];
                    match m.code {
                        None => StepSpec::Fail { error: Error::InvalidClass },
                        Some(code2) => match spec_method_arg_slots(m.descriptor) {
                            None => StepSpec::Fail { error: Error::InvalidClass },
                            Some(nargs) => if 0 <= nargs <= f.stack.len() && nargs
                                <= code2.max_locals {
                                let args = f.stack.skip(f.stack.len() - nargs);
                                let newf = FrameModel {
                                    return_pc: Some(t.pc),
                                    max_stack: code2.max_stack as usize,
                                    locals: Seq::new(
                                        code2.max_locals as nat,
                                        |i: int|
                                            if i < nargs {
                                                args[i]
                                            } else {
                                                Value::Int(0)
                                            },
                                    ),
                                    stack: Seq::empty(),
                                };
                                StepSpec::Next {
                                    classes: cs,
                                    heap,
                                    thread: ThreadModel {
                                        pc: Pc {
                                            class: ci as usize,
                                            method: MethodIndex::Static(mi as usize),
                                            instr: 0,
                                        },
                                        frames: t.frames.update(
                                            t.frames.len() - 1,
                                            frame_with_stack(
                                                f,
                                                f.stack.take(f.stack.len() - nargs),
                                            ),
                                        ).push(newf),
                                    },
                                }
                            } else {
                                StepSpec::Fail { error: Error::InvalidClass }
                            },
                        },
                    }
                },
            },
        },
    }
}

/// A return: pops the frame; with no caller the thread terminates (a
/// root return value is discarded); with a caller, the returned value,
/// if any, lands on the caller's stack and execution resumes just past
/// the invocation site.
pub open spec fn spec_return_step(
    cs: Seq<ClassModel>,
    heap: Seq<ObjectModel>,
    t: ThreadModel,
    f: FrameModel,
    with_value: bool,
) -> StepSpec {
    if with_value && !(f.stack.len() > 0 && f.stack.last() is Int) {
        StepSpec::Fail { error: Error::InvalidClass }
    } else {
        let rest = t.frames.drop_last();
        match f.return_pc {
            None => StepSpec::Terminated { thread: ThreadModel { pc: t.pc, frames: rest } },
            Some(rpc) => if rest.len() == 0 || rpc.instr == usize::MAX {
                StepSpec::Fail { error: Error::InvalidClass }
            } else {
                let caller = rest.last();
                if with_value {
                    if caller.stack.len() < caller.max_stack {
                        StepSpec::Next {
                            classes: cs,
                            heap,
                            thread: ThreadModel {
                                pc: Pc {
                                    class: rpc.class,
                                    method: rpc.method,
                                    instr: (rpc.instr + 1) as usize,
                                },
                                frames: rest.update(
                                    rest.len() - 1,
                                    frame_with_stack(caller, caller.stack.push(f.stack.last())),
                                ),
                            },
                        }
                    } else {
                        StepSpec::Fail { error: Error::InvalidClass }
                    }
                } else {
                    StepSpec::Next {
                        classes: cs,
                        heap,
                        thread: ThreadModel {
                            pc: Pc {
                                class: rpc.class,
                                method: rpc.method,
                                instr: (rpc.instr + 1) as usize,
                            },
                            frames: rest,
                        },
                    }
                }
            },
        }
    }
}

/// Creating an object of the class the `Class` constant at `n` names:
/// the class must be loaded; the object gets one zero-initialized cell
/// per instance field, lives at the end of the heap, and its reference
/// is pushed.
pub open spec fn spec_new_step(
    cs: Seq<ClassModel>,
    heap: Seq<ObjectModel>,
    t: ThreadModel,
    f: FrameModel,
    n: u16,
) -> StepSpec {
    match spec_class_name_at(cs[t.pc.class as int].constant_pool, n as int) {
        None => StepSpec::Fail { error: Error::InvalidClass },
        Some(cn) => match spec_class_index(cs, cn) {
            None => StepSpec::Fail { error: Error::ClassNotFound },
            Some(ci) => if f.stack.len() < f.max_stack {
                StepSpec::Next {
                    classes: cs,
                    heap: heap.push(
                        ObjectModel {
                            class_name: cn,
                            class: Some(ci as usize),
                            fields: Seq::new(cs[ci].fields.len(), |i: int| Value::Int(0)),
                        },
                    ),
                    thread: spec_advance(
                        t,
                        frame_with_stack(
                            f,
                            f.stack.push(Value::Reference(heap.len() as usize)),
                        ),
                    ),
                }
            } else {
                StepSpec::Fail { error: Error::InvalidClass }
            },
        },
    }
}

/// Reading an instance field: the popped reference's object must exist
/// and its own class must know the resolved (name, descriptor) pair; the
/// cell's value replaces the reference on the stack.
pub open spec fn spec_getfield_step(
    cs: Seq<ClassModel>,
    heap: Seq<ObjectModel>,
    t: ThreadModel,
    f: FrameModel,
    n: u16,
) -> StepSpec {
    match spec_field_ref(cs[t.pc.class as int].constant_pool, n as int) {
        None => StepSpec::Fail { error: Error::InvalidClass },
        Some((cn, fname, fdesc)) => if f.stack.len() >= 1 && f.stack.last() is Reference {
            let oid = f.stack.last()->Reference_0;
            if oid < heap.len() && (heap[oid as int].class matches Some(ci) && ci < cs.len()) {
                match spec_field_index(cs[heap[oid as int].class->Some_0 as int].fields, fname, fdesc) {
                    Some(fi) => if fi < heap[oid as int].fields.len() && f.stack.len() - 1
                        < f.max_stack {
                        StepSpec::Next {
                            classes: cs,
                            heap,
                            thread: spec_advance(
                                t,
                                frame_with_stack(
                                    f,
                                    f.stack.drop_last().push(heap[oid as int].fields[fi]),
                                ),
                            ),
                        }
                    } else {
                        StepSpec::Fail { error: Error::InvalidClass }
                    },
                    None => StepSpec::Fail { error: Error::InvalidClass },
                }
            } else {
                StepSpec::Fail { error: Error::InvalidClass }
            }
        } else {
            StepSpec::Fail { error: Error::InvalidClass }
        },
    }
}

/// The object model `o` with its field cells replaced.
pub open spec fn object_with_fields(o: ObjectModel, fields: Seq<Value>) -> ObjectModel {
    ObjectModel { class_name: o.class_name, class: o.class, fields }
}

/// Writing an instance field: pops the value then the reference and
/// updates the addressed object's cell; every holder of the reference
/// sees the new value.
pub open spec fn spec_putfield_step(
    cs: Seq<ClassModel>,
    heap: Seq<ObjectModel>,
    t: ThreadModel,
    f: FrameModel,
    n: u16,
) -> StepSpec {
    match spec_field_ref(cs[t.pc.class as int].constant_pool, n as int) {
        None => StepSpec::Fail { error: Error::InvalidClass },
        Some((cn, fname, fdesc)) => if f.stack.len() >= 2 && f.stack[f.stack.len() - 2]
            is Reference {
            let v = f.stack.last();
            let oid = f.stack[f.stack.len() - 2]->Reference_0;
            if oid < heap.len() && (heap[oid as int].class matches Some(ci) && ci < cs.len()) {
                match spec_field_index(cs[heap[oid as int].class->Some_0 as int].fields, fname, fdesc) {
                    Some(fi) => if fi < heap[oid as int].fields.len() {
                        StepSpec::Next {
                            classes: cs,
                            heap: heap.update(
                                oid as int,
                                object_with_fields(
                                    heap[oid as int],
                                    heap[oid as int].fields.update(fi, v),
                                ),
                            ),
                            thread: spec_advance(
                                t,
                                frame_with_stack(f, f.stack.drop_last().drop_last()),
                            ),
                        }
                    } else {
                        StepSpec::Fail { error: Error::InvalidClass }
                    },
                    None => StepSpec::Fail { error: Error::InvalidClass },
                }
            } else {
                StepSpec::Fail { error: Error::InvalidClass }
            }
        } else {
            StepSpec::Fail { error: Error::InvalidClass }
        },
    }
}

/// Invoking an instance method: the stack holds the receiver below the
/// arguments; `invokespecial` dispatches on the named class,
/// `invokevirtual` on the receiver object's own class. The fresh frame
/// takes the receiver in slot 0 and the arguments in the slots after it.
/// A descriptor naming more parameter slots than any frame could hold
/// (the 16-bit `max_locals` bound) is malformed.
pub open spec fn spec_invokeinstance_step(
    cs: Seq<ClassModel>,
    heap: Seq<ObjectModel>,
    t: ThreadModel,
    f: FrameModel,
    n: u16,
    special: bool,
) -> StepSpec {
    match spec_method_ref(cs[t.pc.class as int].constant_pool, n as int) {
        None => StepSpec::Fail { error: Error::InvalidClass },
        Some((cn, mname, mdesc)) => match spec_method_arg_slots(mdesc) {
            None => StepSpec::Fail { error: Error::InvalidClass },
            Some(nargs) => if 0 <= nargs <= 65535 && nargs + 1 <= f.stack.len() && f.stack[
                f.stack.len() - nargs - 1] is Reference {
                let recv = f.stack[f.stack.len() - nargs - 1];
                let oid = recv->Reference_0;
                if oid < heap.len() {
                    let dci = if special {
                        spec_class_index(cs, cn)
                    } else {
                        match heap[oid as int].class {
                            Some(c) => Some(c as int),
                            None => None,
                        }
                    };
                    match dci {
                        None => StepSpec::Fail {
                            error: if special {
                                Error::ClassNotFound
                            } else {
                                Error::InvalidClass
                            },
                        },
                        Some(ci) => if 0 <= ci < cs.len() {
                            match spec_method_index(cs[ci].methods, mname, mdesc) {
                                None => StepSpec::Fail { error: Error::InvalidClass },
                                Some(mi) => {
                                    let m = cs[ci].methods[mi];
                                    match m.code {
                                        None => StepSpec::Fail { error: Error::InvalidClass },
                                        Some(code2) => if nargs + 1 <= code2.max_locals {
                                            let args = f.stack.skip(f.stack.len() - nargs);
                                            let newf = FrameModel {
                                                return_pc: Some(t.pc),
                                                max_stack: code2.max_stack as usize,
                                                locals: Seq::new(
                                                    code2.max_locals as nat,
                                                    |i: int|
                                                        if i == 0 {
                                                            recv
                                                        } else if i <= nargs {
                                                            args[i - 1]
                                                        } else {
                                                            Value::Int(0)
                                                        },
                                                ),
                                                stack: Seq::empty(),
                                            };
                                            StepSpec::Next {
                                                classes: cs,
                                                heap,
                                                thread: ThreadModel {
                                                    pc: Pc {
                                                        class: ci as usize,
                                                        method: MethodIndex::Dynamic(mi as usize),
                                                        instr: 0,
                                                    },
                                                    frames: t.frames.update(
                                                        t.frames.len() - 1,
                                                        frame_with_stack(
                                                            f,
                                                            f.stack.take(
                                                                f.stack.len() - nargs - 1,
                                                            ),
                                                        ),
                                                    ).push(newf),
                                                },
                                            }
                                        } else {
                                            StepSpec::Fail { error: Error::InvalidClass }
                                        },
                                    }
                                },
                            }
                        } else {
                            StepSpec::Fail { error: Error::InvalidClass }
                        },
                    }
                } else {
                    StepSpec::Fail { error: Error::InvalidClass }
                }
            } else {
                StepSpec::Fail { error: Error::InvalidClass }
            },
        },
    }
}

/// Entering the intrinsic monitor of the popped reference's class,
/// reentrantly for the thread already holding it; a monitor held by
/// another thread blocks the caller, who retries on its next turn.
pub open spec fn spec_monitorenter_step(
    cs: Seq<ClassModel>,
    heap: Seq<ObjectModel>,
    t: ThreadModel,
    f: FrameModel,
    tid: usize,
) -> StepSpec {
    if f.stack.len() >= 1 && f.stack.last() is Reference {
        let oid = f.stack.last()->Reference_0;
        if oid < heap.len() && (heap[oid as int].class matches Some(ci) && ci < cs.len()) {
            let ci = heap[oid as int].class->Some_0 as int;
            let mon = cs[ci].monitor;
            if mon.owner is None {
                StepSpec::Next {
                    classes: cs.update(
                        ci,
                        class_with_monitor(
                            cs[ci],
                            MonitorModel { owner: Some(tid), depth: 1, waiters: mon.waiters },
                        ),
                    ),
                    heap,
                    thread: spec_advance(t, frame_with_stack(f, f.stack.drop_last())),
                }
            } else if mon.owner == Some(tid) && mon.depth < u64::MAX {
                StepSpec::Next {
                    classes: cs.update(
                        ci,
                        class_with_monitor(
                            cs[ci],
                            MonitorModel {
                                owner: Some(tid),
                                depth: (mon.depth + 1) as u64,
                                waiters: mon.waiters,
                            },
                        ),
                    ),
                    heap,
                    thread: spec_advance(t, frame_with_stack(f, f.stack.drop_last())),
                }
            } else {
                StepSpec::Blocked
            }
        } else {
            StepSpec::Fail { error: Error::InvalidClass }
        }
    } else {
        StepSpec::Fail { error: Error::InvalidClass }
    }
}

/// Leaving the intrinsic monitor of the popped reference's class, one
/// re-entry level at a time; a thread that does not hold it fails.
pub open spec fn spec_monitorexit_step(
    cs: Seq<ClassModel>,
    heap: Seq<ObjectModel>,
    t: ThreadModel,
    f: FrameModel,
    tid: usize,
) -> StepSpec {
    if f.stack.len() >= 1 && f.stack.last() is Reference {
        let oid = f.stack.last()->Reference_0;
        if oid < heap.len() && (heap[oid as int].class matches Some(ci) && ci < cs.len()) {
            let ci = heap[oid as int].class->Some_0 as int;
            let mon = cs[ci].monitor;
            if mon.owner == Some(tid) && mon.depth > 0 {
                let mon2 = if mon.depth == 1 {
                    MonitorModel { owner: None, depth: 0, waiters: mon.waiters }
                } else {
                    MonitorModel {
                        owner: Some(tid),
                        depth: (mon.depth - 1) as u64,
                        waiters: mon.waiters,
                    }
                };
                StepSpec::Next {
                    classes: cs.update(ci, class_with_monitor(cs[ci], mon2)),
                    heap,
                    thread: spec_advance(t, frame_with_stack(f, f.stack.drop_last())),
                }
            } else {
                StepSpec::Fail { error: Error::InvalidClass }
            }
        } else {
            StepSpec::Fail { error: Error::InvalidClass }
        }
    } else {
        StepSpec::Fail { error: Error::InvalidClass }
    }
}

/// What executing the current instruction of thread `tid` does to the
/// class registry, the heap, and the thread. Instructions outside the
/// executed subset — long, float, double and array operations, the
/// interface and dynamic invocation forms, and `athrow` — fail with
/// `InvalidClass`.
#[verifier::opaque]
pub open spec fn spec_step(
    cs: Seq<ClassModel>,
    heap: Seq<ObjectModel>,
    t: ThreadModel,
    tid: usize,
) -> StepSpec {
    if t.frames.len() == 0 {
        StepSpec::Fail { error: Error::InvalidClass }
    } else {
        match spec_code_at(cs, t.pc) {
            None => StepSpec::Fail { error: Error::InvalidClass },
            Some(code) => if t.pc.instr >= code.code.len() {
                StepSpec::Fail { error: Error::InvalidClass }
            } else {
                let f = t.frames.last();
                let code_len = code.code.len() as int;
                match code.code[t.pc.instr as int] {
                    Instr::Nop => StepSpec::Next { classes: cs, heap, thread: spec_advance(t, f) },
                    Instr::IconstM1 => spec_push_step(cs, heap, t, f, Value::Int(-1i32)),
                    Instr::Iconst0 => spec_push_step(cs, heap, t, f, Value::Int(0i32)),
                    Instr::Iconst1 => spec_push_step(cs, heap, t, f, Value::Int(1i32)),
                    Instr::Iconst2 => spec_push_step(cs, heap, t, f, Value::Int(2i32)),
                    Instr::Iconst3 => spec_push_step(cs, heap, t, f, Value::Int(3i32)),
                    Instr::Iconst4 => spec_push_step(cs, heap, t, f, Value::Int(4i32)),
                    Instr::Iconst5 => spec_push_step(cs, heap, t, f, Value::Int(5i32)),
                    Instr::Bipush(b) => spec_push_step(cs, heap, t, f, Value::Int(b as i32)),
                    Instr::Sipush(v) => spec_push_step(cs, heap, t, f, Value::Int(v as i32)),
                    Instr::Iload(n) => spec_iload_step(cs, heap, t, f, n as int),
                    Instr::Iload0 => spec_iload_step(cs, heap, t, f, 0),
                    Instr::Iload1 => spec_iload_step(cs, heap, t, f, 1),
                    Instr::Iload2 => spec_iload_step(cs, heap, t, f, 2),
                    Instr::Iload3 => spec_iload_step(cs, heap, t, f, 3),
                    Instr::Aload(n) => spec_aload_step(cs, heap, t, f, n as int),
                    Instr::Aload0 => spec_aload_step(cs, heap, t, f, 0),
                    Instr::Aload1 => spec_aload_step(cs, heap, t, f, 1),
                    Instr::Aload2 => spec_aload_step(cs, heap, t, f, 2),
                    Instr::Aload3 => spec_aload_step(cs, heap, t, f, 3),
                    Instr::Istore(n) => spec_istore_step(cs, heap, t, f, n as int),
                    Instr::Istore0 => spec_istore_step(cs, heap, t, f, 0),
                    Instr::Istore1 => spec_istore_step(cs, heap, t, f, 1),
                    Instr::Istore2 => spec_istore_step(cs, heap, t, f, 2),
                    Instr::Istore3 => spec_istore_step(cs, heap, t, f, 3),
                    Instr::Astore(n) => spec_astore_step(cs, heap, t, f, n as int),
                    Instr::Astore0 => spec_astore_step(cs, heap, t, f, 0),
                    Instr::Astore1 => spec_astore_step(cs, heap, t, f, 1),
                    Instr::Astore2 => spec_astore_step(cs, heap, t, f, 2),
                    Instr::Astore3 => spec_astore_step(cs, heap, t, f, 3),
                    Instr::Iadd => spec_ibinop_step(cs, heap, t, f, IntBinop::Add),
                    Instr::Isub => spec_ibinop_step(cs, heap, t, f, IntBinop::Sub),
                    Instr::Imul => spec_ibinop_step(cs, heap, t, f, IntBinop::Mul),
                    Instr::Iand => spec_ibinop_step(cs, heap, t, f, IntBinop::And),
                    Instr::Ior => spec_ibinop_step(cs, heap, t, f, IntBinop::Or),
                    Instr::Ixor => spec_ibinop_step(cs, heap, t, f, IntBinop::Xor),
                    Instr::Ishl => spec_ibinop_step(cs, heap, t, f, IntBinop::Shl),
                    Instr::Ishr => spec_ibinop_step(cs, heap, t, f, IntBinop::Shr),
                    Instr::Iushr => spec_ibinop_step(cs, heap, t, f, IntBinop::Ushr),
                    Instr::Idiv => spec_idiv_step(cs, heap, t, f, false),
                    Instr::Irem => spec_idiv_step(cs, heap, t, f, true),
                    Instr::Ineg => if f.stack.len() >= 1 && f.stack.last() is Int {
                        StepSpec::Next {
                            classes: cs,
                            heap,
                            thread: spec_advance(
                                t,
                                frame_with_stack(
                                    f,
                                    f.stack.drop_last().push(
                                        Value::Int(
                                            i32_specs::wrapping_sub(0i32, f.stack.last()->Int_0),
                                        ),
                                    ),
                                ),
                            ),
                        }
                    } else {
                        StepSpec::Fail { error: Error::InvalidClass }
                    },
                    Instr::Iinc(n, c) => if (n as int) < f.locals.len() && f.locals[n as int] is Int {
                        StepSpec::Next {
                            classes: cs,
                            heap,
                            thread: spec_advance(
                                t,
                                frame_with_locals(
                                    f,
                                    f.locals.update(
                                        n as int,
                                        Value::Int(
                                            i32_specs::wrapping_add(
                                                f.locals[n as int]->Int_0,
                                                c as i32,
                                            ),
                                        ),
                                    ),
                                ),
                            ),
                        }
                    } else {
                        StepSpec::Fail { error: Error::InvalidClass }
                    },
                    Instr::Goto(off) => spec_branch_step(cs, heap, t, f, code_len, off as int, true),
                    Instr::Ifeq(off) => spec_if_step(cs, heap, t, f, code_len, off, IntCond::Eq),
                    Instr::Ifne(off) => spec_if_step(cs, heap, t, f, code_len, off, IntCond::Ne),
                    Instr::Iflt(off) => spec_if_step(cs, heap, t, f, code_len, off, IntCond::Lt),
                    Instr::Ifge(off) => spec_if_step(cs, heap, t, f, code_len, off, IntCond::Ge),
                    Instr::Ifgt(off) => spec_if_step(cs, heap, t, f, code_len, off, IntCond::Gt),
                    Instr::Ifle(off) => spec_if_step(cs, heap, t, f, code_len, off, IntCond::Le),
                    Instr::IfIcmpeq(off) => spec_ificmp_step(cs, heap, t, f, code_len, off, IntCond::Eq),
                    Instr::IfIcmpne(off) => spec_ificmp_step(cs, heap, t, f, code_len, off, IntCond::Ne),
                    Instr::IfIcmplt(off) => spec_ificmp_step(cs, heap, t, f, code_len, off, IntCond::Lt),
                    Instr::IfIcmpge(off) => spec_ificmp_step(cs, heap, t, f, code_len, off, IntCond::Ge),
                    Instr::IfIcmpgt(off) => spec_ificmp_step(cs, heap, t, f, code_len, off, IntCond::Gt),
                    Instr::IfIcmple(off) => spec_ificmp_step(cs, heap, t, f, code_len, off, IntCond::Le),
                    Instr::Tableswitch { default, low, high, jump_offsets } => if f.stack.len() >= 1
                        && f.stack.last() is Int {
                        let idx = f.stack.last()->Int_0;
                        let f2 = frame_with_stack(f, f.stack.drop_last());
                        if low <= idx && idx <= high {
                            if idx - low < jump_offsets@.len() {
                                spec_branch_step(
                                    cs,
                                    heap,
                                    t,
                                    f2,
                                    code_len,
                                    jump_offsets@[idx - low] as int,
                                    true,
                                )
                            } else {
                                StepSpec::Fail { error: Error::InvalidClass }
                            }
                        } else {
                            spec_branch_step(cs, heap, t, f2, code_len, default as int, true)
                        }
                    } else {
                        StepSpec::Fail { error: Error::InvalidClass }
                    },
                    Instr::Lookupswitch { default, npairs, match_offsets } => if f.stack.len() >= 1
                        && f.stack.last() is Int {
                        let idx = f.stack.last()->Int_0;
                        let f2 = frame_with_stack(f, f.stack.drop_last());
                        let off = match spec_lookup_pair(match_offsets@, idx, 0) {
                            Some(o) => o,
                            None => default,
                        };
                        spec_branch_step(cs, heap, t, f2, code_len, off as int, true)
                    } else {
                        StepSpec::Fail { error: Error::InvalidClass }
                    },
                    Instr::Getstatic(n) => spec_getstatic_step(cs, heap, t, f, n),
                    Instr::Putstatic(n) => spec_putstatic_step(cs, heap, t, f, n),
                    Instr::Invokestatic(n) => spec_invokestatic_step(cs, heap, t, f, n),
                    Instr::Invokevirtual(n) => spec_invokeinstance_step(cs, heap, t, f, n, false),
                    Instr::Invokespecial(n) => spec_invokeinstance_step(cs, heap, t, f, n, true),
                    Instr::New(n) => spec_new_step(cs, heap, t, f, n),
                    Instr::Getfield(n) => spec_getfield_step(cs, heap, t, f, n),
                    Instr::Putfield(n) => spec_putfield_step(cs, heap, t, f, n),
                    Instr::Monitorenter => spec_monitorenter_step(cs, heap, t, f, tid),
                    Instr::Monitorexit => spec_monitorexit_step(cs, heap, t, f, tid),
                    Instr::Ireturn => spec_return_step(cs, heap, t, f, true),
                    Instr::Return => spec_return_step(cs, heap, t, f, false),
                    Instr::Pop => if f.stack.len() >= 1 {
                        StepSpec::Next {
                            classes: cs,
                            heap,
                            thread: spec_advance(t, frame_with_stack(f, f.stack.drop_last())),
                        }
                    } else {
                        StepSpec::Fail { error: Error::InvalidClass }
                    },
                    Instr::Dup => if f.stack.len() >= 1 && f.stack.len() < f.max_stack {
                        StepSpec::Next {
                            classes: cs,
                            heap,
                            thread: spec_advance(
                                t,
                                frame_with_stack(f, f.stack.push(f.stack.last())),
                            ),
                        }
                    } else {
                        StepSpec::Fail { error: Error::InvalidClass }
                    },
                    Instr::Swap => if f.stack.len() >= 2 {
                        let a = f.stack[f.stack.len() - 2];
                        let b = f.stack.last();
                        StepSpec::Next {
                            classes: cs,
                            heap,
                            thread: spec_advance(
                                t,
                                frame_with_stack(
                                    f,
                                    f.stack.update(f.stack.len() - 2, b).update(
                                        f.stack.len() - 1,
                                        a,
                                    ),
                                ),
                            ),
                        }
                    } else {
                        StepSpec::Fail { error: Error::InvalidClass }
                    },
                    _ => StepSpec::Fail { error: Error::InvalidClass },
                }
            },
        }
    }
}

/// A conditional branch testing one popped `Int` against zero.
pub open spec fn spec_if_step(
    cs: Seq<ClassModel>,
    heap: Seq<ObjectModel>,
    t: ThreadModel,
    f: FrameModel,
    code_len: int,
    off: i16,
    c: IntCond,
) -> StepSpec {
    if f.stack.len() >= 1 && f.stack.last() is Int {
        spec_branch_step(
            cs,
            heap,
            t,
            frame_with_stack(f, f.stack.drop_last()),
            code_len,
            off as int,
            spec_icond(c, f.stack.last()->Int_0, 0),
        )
    } else {
        StepSpec::Fail { error: Error::InvalidClass }
    }
}

/// A conditional branch comparing two popped `Int`s.
pub open spec fn spec_ificmp_step(
    cs: Seq<ClassModel>,
    heap: Seq<ObjectModel>,
    t: ThreadModel,
    f: FrameModel,
    code_len: int,
    off: i16,
    c: IntCond,
) -> StepSpec {
    if f.stack.len() >= 2 && f.stack.last() is Int && f.stack[f.stack.len() - 2] is Int {
        spec_branch_step(
            cs,
            heap,
            t,
            frame_with_stack(f, f.stack.drop_last().drop_last()),
            code_len,
            off as int,
            spec_icond(c, f.stack[f.stack.len() - 2]->Int_0, f.stack.last()->Int_0),
        )
    } else {
        StepSpec::Fail { error: Error::InvalidClass }
    }
}

/// The event one instruction step reports to the scheduler.
#[derive(Clone, Copy, Debug, PartialEq, Eq, Structural)]
pub enum StepEvent {
    /// The thread keeps running.
    Continue,
    /// A return popped the root frame.
    Terminated,
    /// An unhandled runtime fault killed the thread.
    Died,
    /// A monitor is held elsewhere: the thread yields without advancing.
    Blocked,
}

/// The fault class name as bytes.
fn arithmetic_fault_bytes() -> (r: Vec<u8>)
    ensures
        r@ == arithmetic_fault_name(),
{
    let mut v: Vec<u8> = Vec::new();
    v.push(106);
    v.push(97);
    v.push(118);
    v.push(97);
    v.push(47);
    v.push(108);
    v.push(97);
    v.push(110);
    v.push(103);
    v.push(47);
    v.push(65);
    v.push(114);
    v.push(105);
    v.push(116);
    v.push(104);
    v.push(109);
    v.push(101);
    v.push(116);
    v.push(105);
    v.push(99);
    v.push(69);
    v.push(120);
    v.push(99);
    v.push(101);
    v.push(112);
    v.push(116);
    v.push(105);
    v.push(111);
    v.push(110);
    proof {
        assert(v@ =~= arithmetic_fault_name());
    }
    v
}

/// The code a program counter executes in, if resolvable.
fn code_at<'a>(ctx: &'a InterpContext, pc: Pc) -> (r: Option<&'a crate::code::Code>)
    ensures
        match r {
            Some(c) => spec_code_at(ctx@.classes, pc) == Some(c@),
            None => spec_code_at(ctx@.classes, pc) is None,
        },
{
    if pc.class >= ctx.classes.len() {
        return None;
    }
    let class = &ctx.classes[pc.class];
    let m = match class.method(pc.method) {
        Some(m) => m,
        None => {
            return None;
        },
    };
    m.code()
}

/// Whether one exception-table entry catches an arithmetic fault here.
fn handler_match(
    e: &ExceptionTableEntry,
    pool: &Vec<crate::constant::Constant>,
    at: usize,
    fault: &Vec<u8>,
    code_len: usize,
) -> (r: bool)
    ensures
        r == spec_handler_match(
            *e,
            crate::constant::pool_model(pool@),
            at,
            fault@,
            code_len as int,
        ),
{
    if !((e.start_pc as usize) <= at && at < (e.end_pc as usize)) {
        return false;
    }
    if (e.handler_pc as usize) >= code_len {
        return false;
    }
    if e.catch_type == 0 {
        return true;
    }
    if e.catch_type as usize >= 1 && (e.catch_type as usize) <= pool.len() {
        match &pool[(e.catch_type as usize) - 1] {
            crate::constant::Constant::Class { name_index } => {
                let ni = *name_index as usize;
                if ni >= 1 && ni <= pool.len() {
                    match &pool[ni - 1] {
                        crate::constant::Constant::Utf8(b) => crate::reader::bytes_eq(b, fault),
                        _ => false,
                    }
                } else {
                    false
                }
            },
            _ => false,
        }
    } else {
        false
    }
}

/// A scan that stopped at `i` determines [`spec_find_handler`].
proof fn lemma_find_handler(
    tab: Seq<ExceptionTableEntry>,
    pool: Seq<ConstantModel>,
    at: usize,
    fault: Seq<u8>,
    code_len: int,
    k: int,
    i: int,
)
    requires
        0 <= k <= i <= tab.len(),
        forall|j: int| k <= j < i ==> !spec_handler_match(#[trigger] tab[j], pool, at, fault, code_len),
        i < tab.len() ==> spec_handler_match(tab[i], pool, at, fault, code_len),
    ensures
        spec_find_handler(tab, pool, at, fault, code_len, k) == if i < tab.len() {
            Some(i)
        } else {
            None::<int>
        },
    decreases i - k,
{
    if k < i {
        lemma_find_handler(tab, pool, at, fault, code_len, k + 1, i);
    }
}

/// The first catching exception-table entry, scanned in table order.
#[verifier::loop_isolation(false)]
fn find_handler(
    tab: &Vec<ExceptionTableEntry>,
    pool: &Vec<crate::constant::Constant>,
    at: usize,
    fault: &Vec<u8>,
    code_len: usize,
) -> (r: Option<usize>)
    ensures
        ({
            let pm = crate::constant::pool_model(pool@);
            match r {
                Some(i) => spec_find_handler(tab@, pm, at, fault@, code_len as int, 0) == Some(
                    i as int,
                ) && i < tab@.len(),
                None => spec_find_handler(tab@, pm, at, fault@, code_len as int, 0) is None,
            }
        }),
{
    let ghost pm = crate::constant::pool_model(pool@);
    let mut i: usize = 0;
    while i < tab.len()
        invariant
            i <= tab@.len(),
            forall|j: int|
                0 <= j < i ==> !spec_handler_match(
                    #[trigger] tab@[j],
                    pm,
                    at,
                    fault@,
                    code_len as int,
                ),
        decreases tab@.len() - i,
    {
        if handler_match(&tab[i], pool, at, fault, code_len) {
            proof {
                lemma_find_handler(tab@, pm, at, fault@, code_len as int, 0, i as int);
            }
            return Some(i);
        }
        i = i + 1;
    }
    proof {
        lemma_find_handler(tab@, pm, at, fault@, code_len as int, 0, tab@.len() as int);
    }
    None
}

impl Thread {
    /// Unwinds an arithmetic fault through this thread's frames: the
    /// nearest frame with a catching exception-table entry resumes at
    /// its handler with the operand stack holding only the thrown fault
    /// object, freshly allocated; with no such frame the thread dies.
    #[verifier::loop_isolation(false)]
    fn raise_arithmetic(&mut self, ctx: &mut InterpContext) -> (r: StepEvent)
        ensures
            ({
                let step = spec_raise(
                    old(ctx)@.classes,
                    old(ctx)@.heap,
                    old(self)@,
                    arithmetic_fault_name(),
                );
                final(ctx)@.classes == old(ctx)@.classes && match r {
                    StepEvent::Continue => step == (StepSpec::Next {
                        classes: final(ctx)@.classes,
                        heap: final(ctx)@.heap,
                        thread: final(self)@,
                    }),
                    StepEvent::Died => step == (StepSpec::Died { thread: final(self)@ })
                        && final(ctx)@ == old(ctx)@,
                    StepEvent::Terminated => false,
                    StepEvent::Blocked => false,
                }
            }),
    {
        let ghost cs = ctx@.classes;
        let ghost obj = ctx@.heap.len() as usize;
        let ghost t0 = self@;
        let ghost fault = arithmetic_fault_name();
        let fault_bytes = arithmetic_fault_bytes();
        let mut d: usize = 0;
        let mut cur_pc: Pc = self.pc;
        proof {
            assert(t0.frames.take(t0.frames.len() - 0) =~= t0.frames);
        }
        loop
            invariant
                d <= t0.frames.len(),
                self@ == t0,
                ctx@ == old(ctx)@,
                spec_unwind(cs, t0, fault, obj) == spec_unwind(
                    cs,
                    ThreadModel { pc: cur_pc, frames: t0.frames.take(t0.frames.len() - d) },
                    fault,
                    obj,
                ),
            decreases t0.frames.len() - d,
        {
            let ghost cur_t = ThreadModel {
                pc: cur_pc,
                frames: t0.frames.take(t0.frames.len() - d),
            };
            if d == self.stack.len() {
                self.stack.truncate(0);
                proof {
                    assert(cur_t.frames.len() == 0);
                    assert(self@.frames =~= Seq::<FrameModel>::empty());
                }
                return StepEvent::Died;
            }
            let fidx = self.stack.len() - 1 - d;
            proof {
                assert(cur_t.frames.last() == t0.frames[fidx as int]);
            }
            let can = self.stack[fidx].max_stack >= 1;
            let mut found: Option<u16> = None;
            match code_at(ctx, cur_pc) {
                Some(code) => {
                    if can {
                        let pool = &ctx.classes[cur_pc.class].constant_pool;
                        match find_handler(
                            &code.exception_table,
                            pool,
                            cur_pc.instr,
                            &fault_bytes,
                            code.code.len(),
                        ) {
                            Some(h) => {
                                found = Some(code.exception_table[h].handler_pc);
                            },
                            None => {
                            },
                        }
                    }
                },
                None => {
                },
            }
            match found {
                Some(hpc) => {
                    self.stack.truncate(fidx + 1);
                    let mut top = match self.stack.pop() {
                        Some(f) => f,
                        None => {
                            proof {
                                assert(false);
                            }
                            return StepEvent::Died;
                        },
                    };
                    top.stack = Vec::new();
                    top.stack.push(Value::Reference(ctx.heap.len()));
                    self.stack.push(top);
                    ctx.heap.push(
                        Object { class_name: fault_bytes, class: None, fields: Vec::new() },
                    );
                    self.pc = Pc { class: cur_pc.class, method: cur_pc.method, instr: hpc as usize };
                    proof {
                        assert(spec_unwind(cs, cur_t, fault, obj) matches UnwindSpec::Caught(t2)
                            && t2.frames =~= cur_t.frames.update(
                            cur_t.frames.len() - 1,
                            frame_with_stack(cur_t.frames.last(), seq![Value::Reference(obj)]),
                        ));
                        assert(self@.frames =~= t0.frames.take(fidx + 1).update(
                            fidx as int,
                            frame_with_stack(t0.frames[fidx as int], seq![Value::Reference(obj)]),
                        ));
                        assert(ctx@.heap =~= old(ctx)@.heap.push(
                            ObjectModel { class_name: fault, class: None, fields: Seq::empty() },
                        ));
                        assert(spec_unwind(cs, cur_t, fault, obj) matches UnwindSpec::Caught(t2)
                            && t2 =~~= self@);
                    }
                    return StepEvent::Continue;
                },
                None => {
                    let rpc = self.stack[fidx].return_pc;
                    match rpc {
                        None => {
                            self.stack.truncate(0);
                            proof {
                                assert(self@.frames =~= Seq::<FrameModel>::empty());
                            }
                            return StepEvent::Died;
                        },
                        Some(rpc) => {
                            proof {
                                assert(cur_t.frames.drop_last() =~= t0.frames.take(
                                    t0.frames.len() - (d + 1),
                                ));
                            }
                            cur_pc = rpc;
                            d = d + 1;
                        },
                    }
                },
            }
        }
    }
}

/// Resolves a class-index and name-and-type-index pair to its triple.
fn resolve_ref_parts(
    pool: &Vec<crate::constant::Constant>,
    ci: u16,
    nti: u16,
) -> (r: Option<(Vec<u8>, Vec<u8>, Vec<u8>)>)
    ensures
        ({
            let pm = crate::constant::pool_model(pool@);
            match r {
                Some(v) => spec_ref_parts(pm, ci, nti) == Some((v.0@, v.1@, v.2@)),
                None => spec_ref_parts(pm, ci, nti) is None,
            }
        }),
{
    let cn = match class_name_at(pool, ci as usize) {
        Some(v) => v,
        None => {
            return None;
        },
    };
    if !((nti as usize) >= 1 && (nti as usize) <= pool.len()) {
        return None;
    }
    match &pool[(nti as usize) - 1] {
        crate::constant::Constant::NameAndType { name_index, descriptor_index } => {
            let n = match utf8_name_at(pool, *name_index as usize) {
                Some(v) => v,
                None => {
                    return None;
                },
            };
            let d = match utf8_name_at(pool, *descriptor_index as usize) {
                Some(v) => v,
                None => {
                    return None;
                },
            };
            Some((cn, n, d))
        },
        _ => None,
    }
}

/// The text constant at 1-based index `n`, copied out.
fn utf8_name_at(pool: &Vec<crate::constant::Constant>, n: usize) -> (r: Option<Vec<u8>>)
    ensures
        ({
            let pm = crate::constant::pool_model(pool@);
            match r {
                Some(b) => spec_utf8_at(pm, n as int) == Some(b@),
                None => spec_utf8_at(pm, n as int) is None,
            }
        }),
{
    if n >= 1 && n <= pool.len() {
        match &pool[n - 1] {
            crate::constant::Constant::Utf8(b) => Some(crate::reader::copy_bytes(b)),
            _ => None,
        }
    } else {
        None
    }
}

/// The name behind the `Class` constant at 1-based index `n`.
fn class_name_at(pool: &Vec<crate::constant::Constant>, n: usize) -> (r: Option<Vec<u8>>)
    ensures
        ({
            let pm = crate::constant::pool_model(pool@);
            match r {
                Some(b) => spec_class_name_at(pm, n as int) == Some(b@),
                None => spec_class_name_at(pm, n as int) is None,
            }
        }),
{
    if n >= 1 && n <= pool.len() {
        match &pool[n - 1] {
            crate::constant::Constant::Class { name_index } => utf8_name_at(
                pool,
                *name_index as usize,
            ),
            _ => None,
        }
    } else {
        None
    }
}

/// Resolves the `FieldRef` constant at 1-based index `n`.
pub(crate) fn resolve_field_ref(pool: &Vec<crate::constant::Constant>, n: u16) -> (r: Option<
    (Vec<u8>, Vec<u8>, Vec<u8>),
>)
    ensures
        ({
            let pm = crate::constant::pool_model(pool@);
            match r {
                Some(v) => spec_field_ref(pm, n as int) == Some((v.0@, v.1@, v.2@)),
                None => spec_field_ref(pm, n as int) is None,
            }
        }),
{
    if !((n as usize) >= 1 && (n as usize) <= pool.len()) {
        return None;
    }
    match &pool[(n as usize) - 1] {
        crate::constant::Constant::FieldRef { class_index, name_and_type_index } => {
            resolve_ref_parts(pool, *class_index, *name_and_type_index)
        },
        _ => None,
    }
}

/// Resolves the `MethodRef` constant at 1-based index `n`.
fn resolve_method_ref(pool: &Vec<crate::constant::Constant>, n: u16) -> (r: Option<
    (Vec<u8>, Vec<u8>, Vec<u8>),
>)
    ensures
        ({
            let pm = crate::constant::pool_model(pool@);
            match r {
                Some(v) => spec_method_ref(pm, n as int) == Some((v.0@, v.1@, v.2@)),
                None => spec_method_ref(pm, n as int) is None,
            }
        }),
{
    if !((n as usize) >= 1 && (n as usize) <= pool.len()) {
        return None;
    }
    match &pool[(n as usize) - 1] {
        crate::constant::Constant::MethodRef { class_index, name_and_type_index } => {
            resolve_ref_parts(pool, *class_index, *name_and_type_index)
        },
        _ => None,
    }
}

/// The slot count of a parsed descriptor, or a marker that it exceeds
/// any possible frame.
enum ArgCount {
    Exact(usize),
    Over,
    Malformed,
}

/// Parameter slot counts are never negative.
proof fn lemma_arg_slots_nonneg(d: Seq<u8>, k: int, in_array: bool)
    ensures
        spec_arg_slots(d, k, in_array) matches Some(n) ==> n >= 0,
        spec_arg_ref(d, k) matches Some(n) ==> n >= 0,
    decreases d.len() - k,
{
    if k < d.len() && k >= 0 {
        lemma_arg_slots_nonneg(d, k + 1, true);
        lemma_arg_slots_nonneg(d, k + 1, false);
    }
}

/// Counts the parameter slots of a method descriptor, giving `Over` when
/// the count exceeds 65535 (more than any frame could take).
#[verifier::loop_isolation(false)]
fn method_arg_slots(d: &Vec<u8>) -> (r: ArgCount)
    ensures
        match r {
            ArgCount::Exact(n) => spec_method_arg_slots(d@) == Some(n as int) && n <= 65535,
            ArgCount::Over => spec_method_arg_slots(d@) matches Some(m) && m > 65535,
            ArgCount::Malformed => spec_method_arg_slots(d@) is None,
        },
{
    if d.len() == 0 || d[0] != 40 {
        return ArgCount::Malformed;
    }
    let mut k: usize = 1;
    let mut acc: usize = 0;
    let mut in_array = false;
    loop
        invariant
            1 <= k,
            acc <= 65537,
            match spec_arg_slots(d@, k as int, in_array) {
                Some(n) => spec_method_arg_slots(d@) == Some(acc + n),
                None => spec_method_arg_slots(d@) is None,
            },
        decreases d@.len() - k + 1, 1int,
    {
        if acc > 65535 {
            proof {
                lemma_arg_slots_nonneg(d@, k as int, in_array);
            }
            return match descriptor_parses_from(d, k, in_array) {
                true => ArgCount::Over,
                false => ArgCount::Malformed,
            };
        }
        if k >= d.len() {
            return ArgCount::Malformed;
        }
        let c = d[k];
        if c == 41 {
            if in_array {
                return ArgCount::Malformed;
            }
            return ArgCount::Exact(acc);
        } else if c == 91 {
            in_array = true;
            k = k + 1;
        } else if c == 76 {
            // scan the class name to its terminating ';'
            let mut j: usize = k + 1;
            loop
                invariant
                    k + 1 <= j,
                    spec_arg_ref(d@, k + 1 as int) == spec_arg_ref(d@, j as int),
                decreases d@.len() - j,
            {
                if j >= d.len() {
                    return ArgCount::Malformed;
                }
                if d[j] == 59 {
                    break;
                }
                j = j + 1;
            }
            acc = acc + 1;
            in_array = false;
            k = j + 1;
        } else if c == 74 || c == 68 {
            acc = acc + if in_array {
                1
            } else {
                2
            };
            in_array = false;
            k = k + 1;
        } else if c == 66 || c == 67 || c == 70 || c == 73 || c == 83 || c == 90 {
            acc = acc + 1;
            in_array = false;
            k = k + 1;
        } else {
            return ArgCount::Malformed;
        }
    }
}

/// Whether the remaining descriptor still parses (used only to separate
/// an over-long parameter list from a malformed one).
#[verifier::loop_isolation(false)]
fn descriptor_parses_from(d: &Vec<u8>, k0: usize, in_array0: bool) -> (r: bool)
    ensures
        r == (spec_arg_slots(d@, k0 as int, in_array0) is Some),
{
    let mut k = k0;
    let mut in_array = in_array0;
    loop
        invariant
            k0 <= k,
            spec_arg_slots(d@, k as int, in_array) is Some == spec_arg_slots(
                d@,
                k0 as int,
                in_array0,
            ) is Some,
        decreases d@.len() - k + 1,
    {
        if k >= d.len() {
            return false;
        }
        let c = d[k];
        if c == 41 {
            return !in_array;
        } else if c == 91 {
            in_array = true;
            k = k + 1;
        } else if c == 76 {
            let mut j: usize = k + 1;
            loop
                invariant
                    k + 1 <= j,
                    spec_arg_ref(d@, k + 1 as int) == spec_arg_ref(d@, j as int),
                decreases d@.len() - j,
            {
                if j >= d.len() {
                    return false;
                }
                if d[j] == 59 {
                    break;
                }
                j = j + 1;
            }
            in_array = false;
            k = j + 1;
        } else if c == 74 || c == 68 || c == 66 || c == 67 || c == 70 || c == 73 || c == 83 || c
            == 90 {
            in_array = false;
            k = k + 1;
        } else {
            return false;
        }
    }
}

/// The branch target `instr + off`, when it lies inside the code.
fn branch_target(instr: usize, off: i32, code_len: usize) -> (r: Option<usize>)
    requires
        instr < code_len,
    ensures
        match r {
            Some(tt) => 0 <= instr + off < code_len && tt == instr + off,
            None => !(0 <= instr + off < code_len),
        },
{
    if off >= 0 {
        let o = off as usize;
        if o < code_len - instr {
            Some(instr + o)
        } else {
            None
        }
    } else {
        let o = (-(off as i64)) as usize;
        if o <= instr {
            Some(instr - o)
        } else {
            None
        }
    }
}

impl Thread {
    /// Takes the top frame off the frame stack.
    fn pop_frame(&mut self) -> (r: Frame)
        requires
            old(self)@.frames.len() > 0,
        ensures
            r@ == old(self)@.frames.last(),
            final(self)@.frames == old(self)@.frames.drop_last(),
            final(self)@.pc == old(self)@.pc,
    {
        let r = match self.stack.pop() {
            Some(f) => f,
            None => {
                proof {
                    assert(false);
                }
                return Frame { return_pc: None, max_stack: 0, locals: Vec::new(), stack: Vec::new() };
            },
        };
        proof {
            assert(frames_model(self.stack@) =~= frames_model(old(self).stack@).drop_last());
        }
        r
    }

    /// Puts a frame on top of the frame stack.
    fn push_frame(&mut self, f: Frame)
        ensures
            final(self)@.frames == old(self)@.frames.push(f@),
            final(self)@.pc == old(self)@.pc,
    {
        let ghost fm = f@;
        self.stack.push(f);
        proof {
            assert(frames_model(self.stack@) =~= frames_model(old(self).stack@).push(fm));
        }
    }

    /// Moves the program counter past the current instruction.
    fn advance_pc(&mut self)
        requires
            old(self)@.pc.instr < usize::MAX,
        ensures
            final(self)@.frames == old(self)@.frames,
            final(self)@.pc == (Pc {
                class: old(self)@.pc.class,
                method: old(self)@.pc.method,
                instr: (old(self)@.pc.instr + 1) as usize,
            }),
    {
        self.pc.instr = self.pc.instr + 1;
    }

    /// Moves the program counter to `target` in the same method.
    fn jump_pc(&mut self, target: usize)
        ensures
            final(self)@.frames == old(self)@.frames,
            final(self)@.pc == (Pc {
                class: old(self)@.pc.class,
                method: old(self)@.pc.method,
                instr: target,
            }),
    {
        self.pc.instr = target;
    }
}

impl Thread {
    /// Pushes a constant and advances.
    fn step_push_const(
        &mut self,
        v: Value,
        Ghost(cs): Ghost<Seq<ClassModel>>,
        Ghost(heap): Ghost<Seq<ObjectModel>>,
    ) -> (r: Result<StepEvent, Error>)
        requires
            old(self)@.frames.len() > 0,
            old(self)@.pc.instr < usize::MAX,
        ensures
            ({
                let step = spec_push_step(cs, heap, old(self)@, old(self)@.frames.last(), v);
                match r {
                    Ok(ev) => ev == StepEvent::Continue && step == (StepSpec::Next {
                        classes: cs,
                        heap,
                        thread: final(self)@,
                    }),
                    Err(e) => *final(self) == *old(self) && step == (StepSpec::Fail { error: e }),
                }
            }),
    {
        let fidx = self.stack.len() - 1;
        if self.stack[fidx].stack.len() >= self.stack[fidx].max_stack {
            return Err(Error::InvalidClass);
        }
        let ghost t0 = self@;
        let ghost fm = t0.frames.last();
        let mut f = self.pop_frame();
        f.stack.push(v);
        self.push_frame(f);
        self.advance_pc();
        proof {
            assert(self@ =~~= spec_advance(t0, frame_with_stack(fm, fm.stack.push(v))));
        }
        Ok(StepEvent::Continue)
    }

    /// Pushes the `Int` in a local slot and advances.
    fn step_iload(
        &mut self,
        idx: usize,
        Ghost(cs): Ghost<Seq<ClassModel>>,
        Ghost(heap): Ghost<Seq<ObjectModel>>,
    ) -> (r: Result<StepEvent, Error>)
        requires
            old(self)@.frames.len() > 0,
            old(self)@.pc.instr < usize::MAX,
        ensures
            ({
                let step = spec_iload_step(cs, heap, old(self)@, old(self)@.frames.last(), idx as int);
                match r {
                    Ok(ev) => ev == StepEvent::Continue && step == (StepSpec::Next {
                        classes: cs,
                        heap,
                        thread: final(self)@,
                    }),
                    Err(e) => *final(self) == *old(self) && step == (StepSpec::Fail { error: e }),
                }
            }),
    {
        let fidx = self.stack.len() - 1;
        if idx >= self.stack[fidx].locals.len() {
            return Err(Error::InvalidClass);
        }
        let v = self.stack[fidx].locals[idx];
        match v {
            Value::Int(_) => self.step_push_const(v, Ghost(cs), Ghost(heap)),
            _ => Err(Error::InvalidClass),
        }
    }

    /// Pushes the `Reference` in a local slot and advances.
    fn step_aload(
        &mut self,
        idx: usize,
        Ghost(cs): Ghost<Seq<ClassModel>>,
        Ghost(heap): Ghost<Seq<ObjectModel>>,
    ) -> (r: Result<StepEvent, Error>)
        requires
            old(self)@.frames.len() > 0,
            old(self)@.pc.instr < usize::MAX,
        ensures
            ({
                let step = spec_aload_step(cs, heap, old(self)@, old(self)@.frames.last(), idx as int);
                match r {
                    Ok(ev) => ev == StepEvent::Continue && step == (StepSpec::Next {
                        classes: cs,
                        heap,
                        thread: final(self)@,
                    }),
                    Err(e) => *final(self) == *old(self) && step == (StepSpec::Fail { error: e }),
                }
            }),
    {
        let fidx = self.stack.len() - 1;
        if idx >= self.stack[fidx].locals.len() {
            return Err(Error::InvalidClass);
        }
        let v = self.stack[fidx].locals[idx];
        match v {
            Value::Reference(_) => self.step_push_const(v, Ghost(cs), Ghost(heap)),
            _ => Err(Error::InvalidClass),
        }
    }

    /// Pops a value of the right kind into a local slot and advances.
    fn step_store(
        &mut self,
        idx: usize,
        want_ref: bool,
        Ghost(cs): Ghost<Seq<ClassModel>>,
        Ghost(heap): Ghost<Seq<ObjectModel>>,
    ) -> (r: Result<StepEvent, Error>)
        requires
            old(self)@.frames.len() > 0,
            old(self)@.pc.instr < usize::MAX,
        ensures
            ({
                let step = if want_ref {
                    spec_astore_step(cs, heap, old(self)@, old(self)@.frames.last(), idx as int)
                } else {
                    spec_istore_step(cs, heap, old(self)@, old(self)@.frames.last(), idx as int)
                };
                match r {
                    Ok(ev) => ev == StepEvent::Continue && step == (StepSpec::Next {
                        classes: cs,
                        heap,
                        thread: final(self)@,
                    }),
                    Err(e) => *final(self) == *old(self) && step == (StepSpec::Fail { error: e }),
                }
            }),
    {
        let fidx = self.stack.len() - 1;
        let slen = self.stack[fidx].stack.len();
        if slen == 0 || idx >= self.stack[fidx].locals.len() {
            return Err(Error::InvalidClass);
        }
        let top = self.stack[fidx].stack[slen - 1];
        let ok = match top {
            Value::Int(_) => !want_ref,
            Value::Reference(_) => want_ref,
            _ => false,
        };
        if !ok {
            return Err(Error::InvalidClass);
        }
        let ghost t0 = self@;
        let ghost fm = t0.frames.last();
        let mut f = self.pop_frame();
        let v = match f.stack.pop() {
            Some(v) => v,
            None => {
                proof {
                    assert(false);
                }
                Value::Int(0)
            },
        };
        f.locals.set(idx, v);
        self.push_frame(f);
        self.advance_pc();
        proof {
            assert(f@.stack =~= fm.stack.drop_last());
            assert(self@ =~~= spec_advance(
                t0,
                FrameModel {
                    return_pc: fm.return_pc,
                    max_stack: fm.max_stack,
                    locals: fm.locals.update(idx as int, fm.stack.last()),
                    stack: fm.stack.drop_last(),
                },
            ));
        }
        Ok(StepEvent::Continue)
    }

    /// Pops two `Int`s, pushes the operation's result, and advances.
    fn step_ibinop(
        &mut self,
        op: IntBinop,
        Ghost(cs): Ghost<Seq<ClassModel>>,
        Ghost(heap): Ghost<Seq<ObjectModel>>,
    ) -> (r: Result<StepEvent, Error>)
        requires
            old(self)@.frames.len() > 0,
            old(self)@.pc.instr < usize::MAX,
        ensures
            ({
                let step = spec_ibinop_step(cs, heap, old(self)@, old(self)@.frames.last(), op);
                match r {
                    Ok(ev) => ev == StepEvent::Continue && step == (StepSpec::Next {
                        classes: cs,
                        heap,
                        thread: final(self)@,
                    }),
                    Err(e) => *final(self) == *old(self) && step == (StepSpec::Fail { error: e }),
                }
            }),
    {
        let fidx = self.stack.len() - 1;
        let slen = self.stack[fidx].stack.len();
        if slen < 2 {
            return Err(Error::InvalidClass);
        }
        let x = match self.stack[fidx].stack[slen - 2] {
            Value::Int(x) => x,
            _ => {
                return Err(Error::InvalidClass);
            },
        };
        let y = match self.stack[fidx].stack[slen - 1] {
            Value::Int(y) => y,
            _ => {
                return Err(Error::InvalidClass);
            },
        };
        let z: i32 = match op {
            IntBinop::Add => x.wrapping_add(y),
            IntBinop::Sub => x.wrapping_sub(y),
            IntBinop::Mul => x.wrapping_mul(y),
            IntBinop::And => x & y,
            IntBinop::Or => x | y,
            IntBinop::Xor => x ^ y,
            IntBinop::Shl => x.wrapping_shl(y as u32),
            IntBinop::Shr => x.wrapping_shr(y as u32),
            IntBinop::Ushr => (x as u32).wrapping_shr(y as u32) as i32,
        };
        let ghost t0 = self@;
        let ghost fm = t0.frames.last();
        let mut f = self.pop_frame();
        let _ = f.stack.pop();
        let _ = f.stack.pop();
        f.stack.push(Value::Int(z));
        self.push_frame(f);
        self.advance_pc();
        proof {
            assert(z == spec_ibinop(op, x, y));
            assert(f@.stack =~= fm.stack.drop_last().drop_last().push(Value::Int(z)));
            assert(self@ =~~= spec_advance(
                t0,
                frame_with_stack(
                    fm,
                    fm.stack.drop_last().drop_last().push(Value::Int(spec_ibinop(op, x, y))),
                ),
            ));
        }
        Ok(StepEvent::Continue)
    }

    /// Pops the condition operands, then branches or falls through.
    fn step_branch(
        &mut self,
        npop: usize,
        off: i32,
        taken: bool,
        code_len: usize,
        Ghost(cs): Ghost<Seq<ClassModel>>,
        Ghost(heap): Ghost<Seq<ObjectModel>>,
    ) -> (r: Result<StepEvent, Error>)
        requires
            old(self)@.frames.len() > 0,
            old(self)@.pc.instr < code_len,
            npop <= old(self)@.frames.last().stack.len(),
        ensures
            ({
                let fm = old(self)@.frames.last();
                let f2 = frame_with_stack(fm, fm.stack.take(fm.stack.len() - npop));
                let step = spec_branch_step(
                    cs,
                    heap,
                    old(self)@,
                    f2,
                    code_len as int,
                    off as int,
                    taken,
                );
                match r {
                    Ok(ev) => ev == StepEvent::Continue && step == (StepSpec::Next {
                        classes: cs,
                        heap,
                        thread: final(self)@,
                    }),
                    Err(e) => *final(self) == *old(self) && step == (StepSpec::Fail { error: e }),
                }
            }),
    {
        let ghost t0 = self@;
        let ghost fm = t0.frames.last();
        let target: usize;
        if taken {
            match branch_target(self.pc.instr, off, code_len) {
                Some(tt) => {
                    target = tt;
                },
                None => {
                    return Err(Error::InvalidClass);
                },
            }
        } else {
            target = 0;
        }
        let mut f = self.pop_frame();
        let mut k: usize = 0;
        while k < npop
            invariant
                k <= npop,
                npop <= fm.stack.len(),
                f@.stack == fm.stack.take(fm.stack.len() - k),
                f@.return_pc == fm.return_pc,
                f@.max_stack == fm.max_stack,
                f@.locals == fm.locals,
            decreases npop - k,
        {
            let _ = f.stack.pop();
            k = k + 1;
            proof {
                assert(f@.stack =~= fm.stack.take(fm.stack.len() - k));
            }
        }
        self.push_frame(f);
        let ghost f2 = frame_with_stack(fm, fm.stack.take(fm.stack.len() - npop));
        if taken {
            self.jump_pc(target);
            proof {
                assert(self@ =~~= spec_jump(t0, f2, target));
            }
        } else {
            self.advance_pc();
            proof {
                assert(self@ =~~= spec_advance(t0, f2));
            }
        }
        Ok(StepEvent::Continue)
    }
}

/// A scan that stopped at `i` determines [`spec_lookup_pair`].
proof fn lemma_lookup_pair(pairs: Seq<(i32, i32)>, key: i32, k: int, i: int)
    requires
        0 <= k <= i <= pairs.len(),
        forall|j: int| k <= j < i ==> (#[trigger] pairs[j]).0 != key,
        i < pairs.len() ==> pairs[i].0 == key,
    ensures
        spec_lookup_pair(pairs, key, k) == if i < pairs.len() {
            Some(pairs[i].1)
        } else {
            None::<i32>
        },
    decreases i - k,
{
    if k < i {
        lemma_lookup_pair(pairs, key, k + 1, i);
    }
}

impl Thread {
    /// Pops the current frame and hands control — and for `ireturn` the
    /// popped `Int` — back to the caller frame; the root frame's return
    /// terminates the thread.
    fn step_return(
        &mut self,
        with_value: bool,
        Ghost(cs): Ghost<Seq<ClassModel>>,
        Ghost(heap): Ghost<Seq<ObjectModel>>,
    ) -> (r: Result<StepEvent, Error>)
        requires
            old(self)@.frames.len() > 0,
        ensures
            ({
                let step = spec_return_step(cs, heap, old(self)@, old(self)@.frames.last(), with_value);
                match r {
                    Ok(ev) => match ev {
                        StepEvent::Continue => step == (StepSpec::Next {
                            classes: cs,
                            heap,
                            thread: final(self)@,
                        }),
                        StepEvent::Terminated => step == (StepSpec::Terminated {
                            thread: final(self)@,
                        }),
                        StepEvent::Died => false,
                        StepEvent::Blocked => false,
                    },
                    Err(e) => *final(self) == *old(self) && step == (StepSpec::Fail { error: e }),
                }
            }),
    {
        let fidx = self.stack.len() - 1;
        let slen = self.stack[fidx].stack.len();
        if with_value {
            if slen == 0 {
                return Err(Error::InvalidClass);
            }
            match self.stack[fidx].stack[slen - 1] {
                Value::Int(_) => {
                },
                _ => {
                    return Err(Error::InvalidClass);
                },
            }
        }
        let ghost t0 = self@;
        let ghost fm = t0.frames.last();
        match self.stack[fidx].return_pc {
            None => {
                let _ = self.pop_frame();
                Ok(StepEvent::Terminated)
            },
            Some(rpc) => {
                if self.stack.len() < 2 {
                    return Err(Error::InvalidClass);
                }
                if rpc.instr == usize::MAX {
                    return Err(Error::InvalidClass);
                }
                if with_value {
                    let clen = self.stack[fidx - 1].stack.len();
                    if clen >= self.stack[fidx - 1].max_stack {
                        return Err(Error::InvalidClass);
                    }
                    let mut f = self.pop_frame();
                    let v = match f.stack.pop() {
                        Some(v) => v,
                        None => {
                            proof {
                                assert(false);
                            }
                            Value::Int(0)
                        },
                    };
                    let mut caller = self.pop_frame();
                    caller.stack.push(v);
                    self.push_frame(caller);
                    self.pc = Pc { class: rpc.class, method: rpc.method, instr: rpc.instr + 1 };
                    proof {
                        let rest = t0.frames.drop_last();
                        assert(self@.frames =~= rest.update(
                            rest.len() - 1,
                            frame_with_stack(rest.last(), rest.last().stack.push(fm.stack.last())),
                        ));
                    }
                    Ok(StepEvent::Continue)
                } else {
                    let _ = self.pop_frame();
                    self.pc = Pc { class: rpc.class, method: rpc.method, instr: rpc.instr + 1 };
                    Ok(StepEvent::Continue)
                }
            },
        }
    }

    /// Executes exactly one instruction: fetches the instruction the
    /// program counter addresses and performs it against this thread's
    /// top frame and the shared context, as [`spec_step`] says. The
    /// error, when one is reported, leaves the thread and the context
    /// unchanged.
    #[verifier::rlimit(100)]
    #[verifier::spinoff_prover]
    pub fn exec_one(&mut self, tid: usize, ctx: &mut InterpContext) -> (r: Result<
        StepEvent,
        Error,
    >)
        ensures
            ({
                let step = spec_step(old(ctx)@.classes, old(ctx)@.heap, old(self)@, tid);
                match r {
                    Ok(ev) => match ev {
                        StepEvent::Continue => step == (StepSpec::Next {
                            classes: final(ctx)@.classes,
                            heap: final(ctx)@.heap,
                            thread: final(self)@,
                        }),
                        StepEvent::Terminated => step == (StepSpec::Terminated {
                            thread: final(self)@,
                        }) && final(ctx)@ == old(ctx)@,
                        StepEvent::Died => step == (StepSpec::Died { thread: final(self)@ })
                            && final(ctx)@ == old(ctx)@,
                        StepEvent::Blocked => step == StepSpec::Blocked && final(ctx)@ == old(
                            ctx,
                        )@ && final(self)@ == old(self)@,
                    },
                    Err(e) => step == (StepSpec::Fail { error: e }) && final(ctx)@ == old(ctx)@
                        && final(self)@ == old(self)@,
                }
            }),
    {
        proof {
            reveal(spec_step);
        }
        let ghost cs0 = ctx@.classes;
        let ghost heap0 = ctx@.heap;
        let ghost t0 = self@;
        if self.stack.len() == 0 {
            return Err(Error::InvalidClass);
        }
        let cur_pc = self.pc;
        let code_len: usize = match code_at(ctx, cur_pc) {
            Some(c) => c.code.len(),
            None => {
                return Err(Error::InvalidClass);
            },
        };
        if cur_pc.instr >= code_len {
            return Err(Error::InvalidClass);
        }
        let fidx = self.stack.len() - 1;
        let ghost fm = t0.frames.last();
        let code = match code_at(ctx, cur_pc) {
            Some(c) => c,
            None => {
                proof {
                    assert(false);
                }
                return Err(Error::InvalidClass);
            },
        };
        proof {
            assert(cur_pc.class < cs0.len());
        }
        let instr = &code.code[cur_pc.instr];
        match instr {
            Instr::Nop => {
                self.advance_pc();
                proof {
                    assert(self@ =~~= spec_advance(t0, fm));
                    assert(t0.frames.update(t0.frames.len() - 1, fm) =~= t0.frames);
                }
                Ok(StepEvent::Continue)
            },
            Instr::IconstM1 => self.step_push_const(Value::Int(-1), Ghost(cs0), Ghost(heap0)),
            Instr::Iconst0 => self.step_push_const(Value::Int(0), Ghost(cs0), Ghost(heap0)),
            Instr::Iconst1 => self.step_push_const(Value::Int(1), Ghost(cs0), Ghost(heap0)),
            Instr::Iconst2 => self.step_push_const(Value::Int(2), Ghost(cs0), Ghost(heap0)),
            Instr::Iconst3 => self.step_push_const(Value::Int(3), Ghost(cs0), Ghost(heap0)),
            Instr::Iconst4 => self.step_push_const(Value::Int(4), Ghost(cs0), Ghost(heap0)),
            Instr::Iconst5 => self.step_push_const(Value::Int(5), Ghost(cs0), Ghost(heap0)),
            Instr::Bipush(b) => self.step_push_const(Value::Int(*b as i32), Ghost(cs0), Ghost(heap0)),
            Instr::Sipush(v) => self.step_push_const(Value::Int(*v as i32), Ghost(cs0), Ghost(heap0)),
            Instr::Iload(n) => self.step_iload(*n as usize, Ghost(cs0), Ghost(heap0)),
            Instr::Iload0 => self.step_iload(0, Ghost(cs0), Ghost(heap0)),
            Instr::Iload1 => self.step_iload(1, Ghost(cs0), Ghost(heap0)),
            Instr::Iload2 => self.step_iload(2, Ghost(cs0), Ghost(heap0)),
            Instr::Iload3 => self.step_iload(3, Ghost(cs0), Ghost(heap0)),
            Instr::Aload(n) => self.step_aload(*n as usize, Ghost(cs0), Ghost(heap0)),
            Instr::Aload0 => self.step_aload(0, Ghost(cs0), Ghost(heap0)),
            Instr::Aload1 => self.step_aload(1, Ghost(cs0), Ghost(heap0)),
            Instr::Aload2 => self.step_aload(2, Ghost(cs0), Ghost(heap0)),
            Instr::Aload3 => self.step_aload(3, Ghost(cs0), Ghost(heap0)),
            Instr::Istore(n) => self.step_store(*n as usize, false, Ghost(cs0), Ghost(heap0)),
            Instr::Istore0 => self.step_store(0, false, Ghost(cs0), Ghost(heap0)),
            Instr::Istore1 => self.step_store(1, false, Ghost(cs0), Ghost(heap0)),
            Instr::Istore2 => self.step_store(2, false, Ghost(cs0), Ghost(heap0)),
            Instr::Istore3 => self.step_store(3, false, Ghost(cs0), Ghost(heap0)),
            Instr::Astore(n) => self.step_store(*n as usize, true, Ghost(cs0), Ghost(heap0)),
            Instr::Astore0 => self.step_store(0, true, Ghost(cs0), Ghost(heap0)),
            Instr::Astore1 => self.step_store(1, true, Ghost(cs0), Ghost(heap0)),
            Instr::Astore2 => self.step_store(2, true, Ghost(cs0), Ghost(heap0)),
            Instr::Astore3 => self.step_store(3, true, Ghost(cs0), Ghost(heap0)),
            Instr::Iadd => self.step_ibinop(IntBinop::Add, Ghost(cs0), Ghost(heap0)),
            Instr::Isub => self.step_ibinop(IntBinop::Sub, Ghost(cs0), Ghost(heap0)),
            Instr::Imul => self.step_ibinop(IntBinop::Mul, Ghost(cs0), Ghost(heap0)),
            Instr::Iand => self.step_ibinop(IntBinop::And, Ghost(cs0), Ghost(heap0)),
            Instr::Ior => self.step_ibinop(IntBinop::Or, Ghost(cs0), Ghost(heap0)),
            Instr::Ixor => self.step_ibinop(IntBinop::Xor, Ghost(cs0), Ghost(heap0)),
            Instr::Ishl => self.step_ibinop(IntBinop::Shl, Ghost(cs0), Ghost(heap0)),
            Instr::Ishr => self.step_ibinop(IntBinop::Shr, Ghost(cs0), Ghost(heap0)),
            Instr::Iushr => self.step_ibinop(IntBinop::Ushr, Ghost(cs0), Ghost(heap0)),
            Instr::Idiv | Instr::Irem => {
                let rem = match instr {
                    Instr::Irem => true,
                    _ => false,
                };
                let slen = self.stack[fidx].stack.len();
                if slen < 2 {
                    return Err(Error::InvalidClass);
                }
                let x = match self.stack[fidx].stack[slen - 2] {
                    Value::Int(x) => x,
                    _ => {
                        return Err(Error::InvalidClass);
                    },
                };
                let y = match self.stack[fidx].stack[slen - 1] {
                    Value::Int(y) => y,
                    _ => {
                        return Err(Error::InvalidClass);
                    },
                };
                if y == 0 {
                    return Ok(self.raise_arithmetic(ctx));
                }
                let z: i32 = if rem {
                    match x.checked_rem(y) {
                        Some(v) => v,
                        None => 0,
                    }
                } else {
                    match x.checked_div(y) {
                        Some(v) => v,
                        None => i32::MIN,
                    }
                };
                let mut f = self.pop_frame();
                let _ = f.stack.pop();
                let _ = f.stack.pop();
                f.stack.push(Value::Int(z));
                self.push_frame(f);
                self.advance_pc();
                proof {
                    assert(f@.stack =~= fm.stack.drop_last().drop_last().push(Value::Int(z)));
                    assert(self@ =~~= spec_advance(
                        t0,
                        frame_with_stack(fm, fm.stack.drop_last().drop_last().push(Value::Int(z))),
                    ));
                }
                Ok(StepEvent::Continue)
            },
            Instr::Ineg => {
                let slen = self.stack[fidx].stack.len();
                if slen < 1 {
                    return Err(Error::InvalidClass);
                }
                let x = match self.stack[fidx].stack[slen - 1] {
                    Value::Int(x) => x,
                    _ => {
                        return Err(Error::InvalidClass);
                    },
                };
                let z: i32 = 0i32.wrapping_sub(x);
                let mut f = self.pop_frame();
                let _ = f.stack.pop();
                f.stack.push(Value::Int(z));
                self.push_frame(f);
                self.advance_pc();
                proof {
                    assert(f@.stack =~= fm.stack.drop_last().push(Value::Int(z)));
                    assert(self@ =~~= spec_advance(
                        t0,
                        frame_with_stack(fm, fm.stack.drop_last().push(Value::Int(z))),
                    ));
                }
                Ok(StepEvent::Continue)
            },
            Instr::Iinc(n, c) => {
                let n = *n as usize;
                let c = *c;
                if n >= self.stack[fidx].locals.len() {
                    return Err(Error::InvalidClass);
                }
                let x = match self.stack[fidx].locals[n] {
                    Value::Int(x) => x,
                    _ => {
                        return Err(Error::InvalidClass);
                    },
                };
                let z: i32 = x.wrapping_add(c as i32);
                let mut f = self.pop_frame();
                f.locals.set(n, Value::Int(z));
                self.push_frame(f);
                self.advance_pc();
                proof {
                    assert(self@ =~~= spec_advance(
                        t0,
                        frame_with_locals(fm, fm.locals.update(n as int, Value::Int(z))),
                    ));
                }
                Ok(StepEvent::Continue)
            },
            Instr::Goto(off) => {
                let r = self.step_branch(0, *off as i32, true, code_len, Ghost(cs0), Ghost(heap0));
                proof {
                    assert(fm.stack.take(fm.stack.len() - 0) =~= fm.stack);
                    assert(frame_with_stack(fm, fm.stack) =~~= fm);
                }
                r
            },
            Instr::Ifeq(off) | Instr::Ifne(off) | Instr::Iflt(off) | Instr::Ifge(off)
                | Instr::Ifgt(off) | Instr::Ifle(off) => {
                let c = match instr {
                    Instr::Ifeq(_) => IntCond::Eq,
                    Instr::Ifne(_) => IntCond::Ne,
                    Instr::Iflt(_) => IntCond::Lt,
                    Instr::Ifge(_) => IntCond::Ge,
                    Instr::Ifgt(_) => IntCond::Gt,
                    _ => IntCond::Le,
                };
                let slen = self.stack[fidx].stack.len();
                if slen < 1 {
                    return Err(Error::InvalidClass);
                }
                let x = match self.stack[fidx].stack[slen - 1] {
                    Value::Int(x) => x,
                    _ => {
                        return Err(Error::InvalidClass);
                    },
                };
                let taken = match c {
                    IntCond::Eq => x == 0,
                    IntCond::Ne => x != 0,
                    IntCond::Lt => x < 0,
                    IntCond::Ge => x >= 0,
                    IntCond::Gt => x > 0,
                    IntCond::Le => x <= 0,
                };
                let r = self.step_branch(1, *off as i32, taken, code_len, Ghost(cs0), Ghost(heap0));
                proof {
                    assert(fm.stack.take(fm.stack.len() - 1) =~= fm.stack.drop_last());
                    assert(taken == spec_icond(c, x, 0));
                }
                r
            },
            Instr::IfIcmpeq(off) | Instr::IfIcmpne(off) | Instr::IfIcmplt(off)
                | Instr::IfIcmpge(off) | Instr::IfIcmpgt(off) | Instr::IfIcmple(off) => {
                let c = match instr {
                    Instr::IfIcmpeq(_) => IntCond::Eq,
                    Instr::IfIcmpne(_) => IntCond::Ne,
                    Instr::IfIcmplt(_) => IntCond::Lt,
                    Instr::IfIcmpge(_) => IntCond::Ge,
                    Instr::IfIcmpgt(_) => IntCond::Gt,
                    _ => IntCond::Le,
                };
                let slen = self.stack[fidx].stack.len();
                if slen < 2 {
                    return Err(Error::InvalidClass);
                }
                let x = match self.stack[fidx].stack[slen - 2] {
                    Value::Int(x) => x,
                    _ => {
                        return Err(Error::InvalidClass);
                    },
                };
                let y = match self.stack[fidx].stack[slen - 1] {
                    Value::Int(y) => y,
                    _ => {
                        return Err(Error::InvalidClass);
                    },
                };
                let taken = match c {
                    IntCond::Eq => x == y,
                    IntCond::Ne => x != y,
                    IntCond::Lt => x < y,
                    IntCond::Ge => x >= y,
                    IntCond::Gt => x > y,
                    IntCond::Le => x <= y,
                };
                let r = self.step_branch(2, *off as i32, taken, code_len, Ghost(cs0), Ghost(heap0));
                proof {
                    assert(fm.stack.take(fm.stack.len() - 2) =~= fm.stack.drop_last().drop_last());
                    assert(taken == spec_icond(c, x, y));
                }
                r
            },
            Instr::Tableswitch { default, low, high, jump_offsets } => {
                let slen = self.stack[fidx].stack.len();
                if slen < 1 {
                    return Err(Error::InvalidClass);
                }
                let idx = match self.stack[fidx].stack[slen - 1] {
                    Value::Int(x) => x,
                    _ => {
                        return Err(Error::InvalidClass);
                    },
                };
                let off: i32;
                if *low <= idx && idx <= *high {
                    let j64: i64 = (idx as i64) - (*low as i64);
                    let ju: usize = j64 as usize;
                    if ju >= jump_offsets.len() {
                        return Err(Error::InvalidClass);
                    }
                    off = jump_offsets[ju];
                } else {
                    off = *default;
                }
                let r = self.step_branch(1, off, true, code_len, Ghost(cs0), Ghost(heap0));
                proof {
                    assert(fm.stack.take(fm.stack.len() - 1) =~= fm.stack.drop_last());
                }
                r
            },
            Instr::Lookupswitch { default, npairs, match_offsets } => {
                let slen = self.stack[fidx].stack.len();
                if slen < 1 {
                    return Err(Error::InvalidClass);
                }
                let idx = match self.stack[fidx].stack[slen - 1] {
                    Value::Int(x) => x,
                    _ => {
                        return Err(Error::InvalidClass);
                    },
                };
                let mut off: i32 = *default;
                let mut k: usize = 0;
                let mut found = false;
                while k < match_offsets.len() && !found
                    invariant
                        found ==> k < match_offsets@.len(),
                        k <= match_offsets@.len(),
                        !found ==> forall|j: int|
                            0 <= j < k ==> (#[trigger] match_offsets@[j]).0 != idx,
                        found ==> k < match_offsets@.len() && match_offsets@[k as int].0 == idx
                            && off == match_offsets@[k as int].1 && spec_lookup_pair(
                            match_offsets@,
                            idx,
                            0,
                        ) == Some(off),
                        !found ==> off == *default,
                    decreases
                            match_offsets@.len() - k,
                            (if found {
                                0int
                            } else {
                                1int
                            }),
                {
                    if match_offsets[k].0 == idx {
                        off = match_offsets[k].1;
                        found = true;
                        proof {
                            lemma_lookup_pair(match_offsets@, idx, 0, k as int);
                        }
                    } else {
                        k = k + 1;
                    }
                }
                proof {
                    if !found {
                        lemma_lookup_pair(match_offsets@, idx, 0, match_offsets@.len() as int);
                    }
                }
                let r = self.step_branch(1, off, true, code_len, Ghost(cs0), Ghost(heap0));
                proof {
                    assert(fm.stack.take(fm.stack.len() - 1) =~= fm.stack.drop_last());
                }
                r
            },
            Instr::Ireturn => self.step_return(true, Ghost(cs0), Ghost(heap0)),
            Instr::Return => self.step_return(false, Ghost(cs0), Ghost(heap0)),
            Instr::Pop => {
                let slen = self.stack[fidx].stack.len();
                if slen < 1 {
                    return Err(Error::InvalidClass);
                }
                let mut f = self.pop_frame();
                let _ = f.stack.pop();
                self.push_frame(f);
                self.advance_pc();
                proof {
                    assert(self@ =~~= spec_advance(
                        t0,
                        frame_with_stack(fm, fm.stack.drop_last()),
                    ));
                }
                Ok(StepEvent::Continue)
            },
            Instr::Dup => {
                let slen = self.stack[fidx].stack.len();
                if slen < 1 || slen >= self.stack[fidx].max_stack {
                    return Err(Error::InvalidClass);
                }
                let v = self.stack[fidx].stack[slen - 1];
                let mut f = self.pop_frame();
                f.stack.push(v);
                self.push_frame(f);
                self.advance_pc();
                proof {
                    assert(self@ =~~= spec_advance(
                        t0,
                        frame_with_stack(fm, fm.stack.push(fm.stack.last())),
                    ));
                }
                Ok(StepEvent::Continue)
            },
            Instr::Swap => {
                let slen = self.stack[fidx].stack.len();
                if slen < 2 {
                    return Err(Error::InvalidClass);
                }
                let a = self.stack[fidx].stack[slen - 2];
                let b = self.stack[fidx].stack[slen - 1];
                let mut f = self.pop_frame();
                f.stack.set(slen - 2, b);
                f.stack.set(slen - 1, a);
                self.push_frame(f);
                self.advance_pc();
                proof {
                    assert(self@ =~~= spec_advance(
                        t0,
                        frame_with_stack(
                            fm,
                            fm.stack.update(fm.stack.len() - 2, fm.stack.last()).update(
                                fm.stack.len() - 1,
                                fm.stack[fm.stack.len() - 2],
                            ),
                        ),
                    ));
                }
                Ok(StepEvent::Continue)
            },
            Instr::Getstatic(n) => {
                let n = *n;
                let pool = &ctx.classes[cur_pc.class].constant_pool;
                let (cn, fname, fdesc) = match resolve_field_ref(pool, n) {
                    Some(v) => v,
                    None => {
                        return Err(Error::InvalidClass);
                    },
                };
                let ci = match ctx.class(&cn) {
                    Some(ci) => ci,
                    None => {
                        return Err(Error::ClassNotFound);
                    },
                };
                let fi = match ctx.classes[ci].static_field_index(&fname, &fdesc) {
                    Some(ix) => ix,
                    None => {
                        return Err(Error::InvalidClass);
                    },
                };
                let v = match ctx.classes[ci].static_field_value(fi) {
                    Some(v) => v,
                    None => {
                        return Err(Error::InvalidClass);
                    },
                };
                self.step_push_const(v, Ghost(cs0), Ghost(heap0))
            },
            Instr::Putstatic(n) => {
                let n = *n;
                let slen = self.stack[fidx].stack.len();
                let (cn, fname, fdesc) = match resolve_field_ref(
                    &ctx.classes[cur_pc.class].constant_pool,
                    n,
                ) {
                    Some(v) => v,
                    None => {
                        return Err(Error::InvalidClass);
                    },
                };
                let ci = match ctx.class(&cn) {
                    Some(ci) => ci,
                    None => {
                        return Err(Error::ClassNotFound);
                    },
                };
                let fi = match ctx.classes[ci].static_field_index(&fname, &fdesc) {
                    Some(ix) => ix,
                    None => {
                        return Err(Error::InvalidClass);
                    },
                };
                let fiu = match fi {
                    crate::class::FieldIndex::Static(i) => i,
                    crate::class::FieldIndex::Dynamic(i) => i,
                };
                if fiu >= ctx.classes[ci].static_values.len() || slen == 0 {
                    return Err(Error::InvalidClass);
                }
                let mut f = self.pop_frame();
                let v = match f.stack.pop() {
                    Some(v) => v,
                    None => {
                        proof {
                            assert(false);
                        }
                        Value::Int(0)
                    },
                };
                self.push_frame(f);
                self.advance_pc();
                let mut cl = ctx.classes.remove(ci);
                let ok = cl.set_static_field_value(fi, v);
                ctx.classes.insert(ci, cl);
                proof {
                    assert(ok);
                    assert(ctx@.classes =~= cs0.update(
                        ci as int,
                        class_with_static_values(
                            cs0[ci as int],
                            cs0[ci as int].static_values.update(fiu as int, fm.stack.last()),
                        ),
                    ));
                    assert(self@ =~~= spec_advance(
                        t0,
                        frame_with_stack(fm, fm.stack.drop_last()),
                    ));
                }
                Ok(StepEvent::Continue)
            },
            Instr::Invokestatic(n) => {
                let n = *n;
                let (cn, mname, mdesc) = match resolve_method_ref(
                    &ctx.classes[cur_pc.class].constant_pool,
                    n,
                ) {
                    Some(v) => v,
                    None => {
                        return Err(Error::InvalidClass);
                    },
                };
                let ci = match ctx.class(&cn) {
                    Some(ci) => ci,
                    None => {
                        return Err(Error::ClassNotFound);
                    },
                };
                let mix = match ctx.classes[ci].static_method_index(&mname, &mdesc) {
                    Some(ix) => ix,
                    None => {
                        return Err(Error::InvalidClass);
                    },
                };
                let mi = match mix {
                    MethodIndex::Static(i) => i,
                    MethodIndex::Dynamic(i) => i,
                };
                let m = &ctx.classes[ci].static_methods[mi];
                let max_locals = match m.max_locals() {
                    Some(v) => v,
                    None => {
                        return Err(Error::InvalidClass);
                    },
                };
                let nargs = match method_arg_slots(&m.descriptor) {
                    ArgCount::Exact(v) => v,
                    ArgCount::Over => {
                        return Err(Error::InvalidClass);
                    },
                    ArgCount::Malformed => {
                        return Err(Error::InvalidClass);
                    },
                };
                let slen = self.stack[fidx].stack.len();
                if nargs > slen || nargs > max_locals {
                    return Err(Error::InvalidClass);
                }
                let mut newf = match Frame::new(cur_pc, &ctx.classes[ci], MethodIndex::Static(mi)) {
                    Ok(f) => f,
                    Err(e) => {
                        proof {
                            assert(false);
                        }
                        return Err(e);
                    },
                };
                let ghost code2 = cs0[ci as int].static_methods[mi as int].code->Some_0;
                let ghost args = fm.stack.skip(fm.stack.len() - nargs);
                let mut f = self.pop_frame();
                let mut j: usize = 0;
                while j < nargs
                    invariant
                        j <= nargs,
                        nargs <= fm.stack.len(),
                        nargs <= newf@.locals.len(),
                        f@.stack == fm.stack.take(fm.stack.len() - j),
                        f@.return_pc == fm.return_pc,
                        f@.max_stack == fm.max_stack,
                        f@.locals == fm.locals,
                        newf@.return_pc == Some(cur_pc),
                        newf@.max_stack == code2.max_stack as usize,
                        newf@.locals.len() == code2.max_locals as usize,
                        args == fm.stack.skip(fm.stack.len() - nargs),
                        forall|i: int|
                            0 <= i < newf@.locals.len() ==> #[trigger] newf@.locals[i] == (
                            if nargs - j <= i < nargs {
                                args[i]
                            } else {
                                Value::Int(0)
                            }),
                        newf@.stack.len() == 0,
                    decreases nargs - j,
                {
                    let v = match f.stack.pop() {
                        Some(v) => v,
                        None => {
                            proof {
                                assert(false);
                            }
                            Value::Int(0)
                        },
                    };
                    newf.locals.set(nargs - 1 - j, v);
                    j = j + 1;
                    proof {
                        assert(f@.stack =~= fm.stack.take(fm.stack.len() - j));
                    }
                }
                self.push_frame(f);
                self.push_frame(newf);
                self.pc = Pc { class: ci, method: MethodIndex::Static(mi), instr: 0 };
                proof {
                    assert(newf@.stack =~= Seq::<Value>::empty());
                    assert(newf@.locals =~= Seq::new(
                        code2.max_locals as nat,
                        |i: int|
                            if i < nargs {
                                args[i]
                            } else {
                                Value::Int(0)
                            },
                    ));
                    assert(self@.frames =~= t0.frames.update(
                        t0.frames.len() - 1,
                        frame_with_stack(fm, fm.stack.take(fm.stack.len() - nargs)),
                    ).push(newf@));
                }
                Ok(StepEvent::Continue)
            },
            Instr::New(n) => self.step_new(*n, ctx),
            Instr::Getfield(n) => self.step_getfield(*n, ctx),
            Instr::Putfield(n) => self.step_putfield(*n, ctx),
            Instr::Invokevirtual(n) => self.step_invokeinstance(*n, false, ctx),
            Instr::Invokespecial(n) => self.step_invokeinstance(*n, true, ctx),
            Instr::Monitorenter => self.step_monitor(true, tid, ctx),
            Instr::Monitorexit => self.step_monitor(false, tid, ctx),
            _ => Err(Error::InvalidClass),
        }
    }
}

impl Thread {
    /// Allocates an object of the named class on the heap and pushes its
    /// reference.
    fn step_new(&mut self, n: u16, ctx: &mut InterpContext) -> (r: Result<StepEvent, Error>)
        requires
            old(self)@.frames.len() > 0,
            old(self)@.pc.instr < usize::MAX,
            old(self)@.pc.class < old(ctx)@.classes.len(),
        ensures
            ({
                let step = spec_new_step(
                    old(ctx)@.classes,
                    old(ctx)@.heap,
                    old(self)@,
                    old(self)@.frames.last(),
                    n,
                );
                match r {
                    Ok(ev) => ev == StepEvent::Continue && step == (StepSpec::Next {
                        classes: final(ctx)@.classes,
                        heap: final(ctx)@.heap,
                        thread: final(self)@,
                    }),
                    Err(e) => step == (StepSpec::Fail { error: e }) && final(ctx)@ == old(ctx)@
                        && final(self)@ == old(self)@,
                }
            }),
    {
        let ghost cs0 = ctx@.classes;
        let ghost heap0 = ctx@.heap;
        let ghost t0 = self@;
        let ghost fm = t0.frames.last();
        let cur_pc = self.pc;
        let fidx = self.stack.len() - 1;

        let cn = match class_name_at(&ctx.classes[cur_pc.class].constant_pool, n as usize) {
            Some(v) => v,
            None => {
                return Err(Error::InvalidClass);
            },
        };
        let ci = match ctx.class(&cn) {
            Some(ci) => ci,
            None => {
                return Err(Error::ClassNotFound);
            },
        };
        if self.stack[fidx].stack.len() >= self.stack[fidx].max_stack {
            return Err(Error::InvalidClass);
        }
        let nf = ctx.classes[ci].fields.len();
        let mut cells: Vec<Value> = Vec::new();
        let mut k: usize = 0;
        while k < nf
            invariant
                k <= nf,
                cells@ == Seq::new(k as nat, |i: int| Value::Int(0)),
            decreases nf - k,
        {
            cells.push(Value::Int(0));
            k = k + 1;
            proof {
                assert(cells@ =~= Seq::new(k as nat, |i: int| Value::Int(0)));
            }
        }
        let oid = ctx.heap.len();
        let mut f = self.pop_frame();
        f.stack.push(Value::Reference(oid));
        self.push_frame(f);
        self.advance_pc();
        let ghost cnm = cn@;
        ctx.heap.push(Object { class_name: cn, class: Some(ci), fields: cells });
        proof {
            assert(cells@ =~= Seq::new(cs0[ci as int].fields.len(), |i: int| Value::Int(0)));
            assert(ctx@.heap =~= heap0.push(
                ObjectModel {
                    class_name: cnm,
                    class: Some(ci),
                    fields: Seq::new(cs0[ci as int].fields.len(), |i: int| Value::Int(0)),
                },
            ));
            assert(self@ =~~= spec_advance(
                t0,
                frame_with_stack(fm, fm.stack.push(Value::Reference(oid))),
            ));
        }
        Ok(StepEvent::Continue)
                }

    /// Reads an instance field of the referenced object.
    fn step_getfield(&mut self, n: u16, ctx: &mut InterpContext) -> (r: Result<StepEvent, Error>)
        requires
            old(self)@.frames.len() > 0,
            old(self)@.pc.instr < usize::MAX,
            old(self)@.pc.class < old(ctx)@.classes.len(),
        ensures
            ({
                let step = spec_getfield_step(
                    old(ctx)@.classes,
                    old(ctx)@.heap,
                    old(self)@,
                    old(self)@.frames.last(),
                    n,
                );
                match r {
                    Ok(ev) => ev == StepEvent::Continue && step == (StepSpec::Next {
                        classes: final(ctx)@.classes,
                        heap: final(ctx)@.heap,
                        thread: final(self)@,
                    }),
                    Err(e) => step == (StepSpec::Fail { error: e }) && final(ctx)@ == old(ctx)@
                        && final(self)@ == old(self)@,
                }
            }),
    {
        let ghost cs0 = ctx@.classes;
        let ghost heap0 = ctx@.heap;
        let ghost t0 = self@;
        let ghost fm = t0.frames.last();
        let cur_pc = self.pc;
        let fidx = self.stack.len() - 1;

        let (cn, fname, fdesc) = match resolve_field_ref(
            &ctx.classes[cur_pc.class].constant_pool,
            n,
        ) {
            Some(v) => v,
            None => {
                return Err(Error::InvalidClass);
            },
        };
        let slen = self.stack[fidx].stack.len();
        if slen < 1 {
            return Err(Error::InvalidClass);
        }
        let oid = match self.stack[fidx].stack[slen - 1] {
            Value::Reference(o) => o,
            _ => {
                return Err(Error::InvalidClass);
            },
        };
        if oid >= ctx.heap.len() {
            return Err(Error::InvalidClass);
        }
        let ci = match ctx.heap[oid].class {
            Some(c) => c,
            None => {
                return Err(Error::InvalidClass);
            },
        };
        if ci >= ctx.classes.len() {
            return Err(Error::InvalidClass);
        }
        let fi = match ctx.classes[ci].field_index(&fname, &fdesc) {
            Some(crate::class::FieldIndex::Dynamic(i)) => i,
            _ => {
                return Err(Error::InvalidClass);
            },
        };
        let v = match ctx.heap[oid].get_field_at(fi) {
            Some(v) => v,
            None => {
                return Err(Error::InvalidClass);
            },
        };
        if slen - 1 >= self.stack[fidx].max_stack {
            return Err(Error::InvalidClass);
        }
        let mut f = self.pop_frame();
        let _ = f.stack.pop();
        f.stack.push(v);
        self.push_frame(f);
        self.advance_pc();
        proof {
            assert(self@ =~~= spec_advance(
                t0,
                frame_with_stack(fm, fm.stack.drop_last().push(v)),
            ));
        }
        Ok(StepEvent::Continue)
                }

    /// Writes an instance field of the referenced object.
    fn step_putfield(&mut self, n: u16, ctx: &mut InterpContext) -> (r: Result<StepEvent, Error>)
        requires
            old(self)@.frames.len() > 0,
            old(self)@.pc.instr < usize::MAX,
            old(self)@.pc.class < old(ctx)@.classes.len(),
        ensures
            ({
                let step = spec_putfield_step(
                    old(ctx)@.classes,
                    old(ctx)@.heap,
                    old(self)@,
                    old(self)@.frames.last(),
                    n,
                );
                match r {
                    Ok(ev) => ev == StepEvent::Continue && step == (StepSpec::Next {
                        classes: final(ctx)@.classes,
                        heap: final(ctx)@.heap,
                        thread: final(self)@,
                    }),
                    Err(e) => step == (StepSpec::Fail { error: e }) && final(ctx)@ == old(ctx)@
                        && final(self)@ == old(self)@,
                }
            }),
    {
        let ghost cs0 = ctx@.classes;
        let ghost heap0 = ctx@.heap;
        let ghost t0 = self@;
        let ghost fm = t0.frames.last();
        let cur_pc = self.pc;
        let fidx = self.stack.len() - 1;

        let (cn, fname, fdesc) = match resolve_field_ref(
            &ctx.classes[cur_pc.class].constant_pool,
            n,
        ) {
            Some(v) => v,
            None => {
                return Err(Error::InvalidClass);
            },
        };
        let slen = self.stack[fidx].stack.len();
        if slen < 2 {
            return Err(Error::InvalidClass);
        }
        let oid = match self.stack[fidx].stack[slen - 2] {
            Value::Reference(o) => o,
            _ => {
                return Err(Error::InvalidClass);
            },
        };
        if oid >= ctx.heap.len() {
            return Err(Error::InvalidClass);
        }
        let ci = match ctx.heap[oid].class {
            Some(c) => c,
            None => {
                return Err(Error::InvalidClass);
            },
        };
        if ci >= ctx.classes.len() {
            return Err(Error::InvalidClass);
        }
        let fi = match ctx.classes[ci].field_index(&fname, &fdesc) {
            Some(crate::class::FieldIndex::Dynamic(i)) => i,
            _ => {
                return Err(Error::InvalidClass);
            },
        };
        if fi >= ctx.heap[oid].fields.len() {
            return Err(Error::InvalidClass);
        }
        let mut f = self.pop_frame();
        let v = match f.stack.pop() {
            Some(v) => v,
            None => {
                proof {
                    assert(false);
                }
                Value::Int(0)
            },
        };
        let _ = f.stack.pop();
        self.push_frame(f);
        self.advance_pc();
        let mut obj = ctx.heap.remove(oid);
        let ghost pre = obj@;
        let ok = obj.set_field_at(fi, v);
        let ghost post = obj@;
        ctx.heap.insert(oid, obj);
        proof {
            assert(ok);
            assert(post == object_with_fields(pre, pre.fields.update(fi as int, v)));
            assert(ctx@.heap =~= heap0.update(
                oid as int,
                object_with_fields(
                    heap0[oid as int],
                    heap0[oid as int].fields.update(fi as int, fm.stack.last()),
                ),
            ));
            assert(self@ =~~= spec_advance(
                t0,
                frame_with_stack(fm, fm.stack.drop_last().drop_last()),
            ));
        }
        Ok(StepEvent::Continue)
                }

    /// Invokes an instance method: the receiver sits below the arguments
    /// and lands in the callee's local slot 0.
    fn step_invokeinstance(&mut self, n: u16, special: bool, ctx: &mut InterpContext) -> (r: Result<
        StepEvent,
        Error,
    >)
        requires
            old(self)@.frames.len() > 0,
            old(self)@.pc.instr < usize::MAX,
            old(self)@.pc.class < old(ctx)@.classes.len(),
        ensures
            ({
                let step = spec_invokeinstance_step(
                    old(ctx)@.classes,
                    old(ctx)@.heap,
                    old(self)@,
                    old(self)@.frames.last(),
                    n,
                    special,
                );
                match r {
                    Ok(ev) => ev == StepEvent::Continue && step == (StepSpec::Next {
                        classes: final(ctx)@.classes,
                        heap: final(ctx)@.heap,
                        thread: final(self)@,
                    }),
                    Err(e) => step == (StepSpec::Fail { error: e }) && final(ctx)@ == old(ctx)@
                        && final(self)@ == old(self)@,
                }
            }),
    {
        let ghost cs0 = ctx@.classes;
        let ghost heap0 = ctx@.heap;
        let ghost t0 = self@;
        let ghost fm = t0.frames.last();
        let cur_pc = self.pc;
        let fidx = self.stack.len() - 1;

        
        let (cn, mname, mdesc) = match resolve_method_ref(
            &ctx.classes[cur_pc.class].constant_pool,
            n,
        ) {
            Some(v) => v,
            None => {
                return Err(Error::InvalidClass);
            },
        };
        let nargs = match method_arg_slots(&mdesc) {
            ArgCount::Exact(v) => v,
            ArgCount::Over => {
                return Err(Error::InvalidClass);
            },
            ArgCount::Malformed => {
                return Err(Error::InvalidClass);
            },
        };
        let slen = self.stack[fidx].stack.len();
        if nargs + 1 > slen {
            return Err(Error::InvalidClass);
        }
        let recv = self.stack[fidx].stack[slen - 1 - nargs];
        let oid = match recv {
            Value::Reference(o) => o,
            _ => {
                return Err(Error::InvalidClass);
            },
        };
        if oid >= ctx.heap.len() {
            return Err(Error::InvalidClass);
        }
        let dci: usize;
        if special {
            dci = match ctx.class(&cn) {
                Some(c) => c,
                None => {
                    return Err(Error::ClassNotFound);
                },
            };
        } else {
            dci = match ctx.heap[oid].class {
                Some(c) => c,
                None => {
                    return Err(Error::InvalidClass);
                },
            };
            if dci >= ctx.classes.len() {
                return Err(Error::InvalidClass);
            }
        }
        let mix = match ctx.classes[dci].method_index(&mname, &mdesc) {
            Some(ix) => ix,
            None => {
                return Err(Error::InvalidClass);
            },
        };
        let mi = match mix {
            MethodIndex::Dynamic(i) => i,
            MethodIndex::Static(i) => i,
        };
        let m = &ctx.classes[dci].methods[mi];
        let max_locals = match m.max_locals() {
            Some(v) => v,
            None => {
                return Err(Error::InvalidClass);
            },
        };
        if nargs + 1 > max_locals {
            return Err(Error::InvalidClass);
        }
        let mut newf = match Frame::new(cur_pc, &ctx.classes[dci], MethodIndex::Dynamic(mi)) {
            Ok(f) => f,
            Err(e) => {
                proof {
                    assert(false);
                }
                return Err(e);
            },
        };
        let ghost code2 = cs0[dci as int].methods[mi as int].code->Some_0;
        let ghost args = fm.stack.skip(fm.stack.len() - nargs);
        let mut f = self.pop_frame();
        let mut j: usize = 0;
        while j < nargs
            invariant
                j <= nargs,
                nargs + 1 <= fm.stack.len(),
                nargs + 1 <= newf@.locals.len(),
                f@.stack == fm.stack.take(fm.stack.len() - j),
                f@.return_pc == fm.return_pc,
                f@.max_stack == fm.max_stack,
                f@.locals == fm.locals,
                newf@.return_pc == Some(cur_pc),
                newf@.max_stack == code2.max_stack as usize,
                newf@.locals.len() == code2.max_locals as usize,
                args == fm.stack.skip(fm.stack.len() - nargs),
                forall|i: int|
                    0 <= i < newf@.locals.len() ==> #[trigger] newf@.locals[i] == (
                    if nargs + 1 - j <= i <= nargs {
                        args[i - 1]
                    } else {
                        Value::Int(0)
                    }),
                newf@.stack.len() == 0,
            decreases nargs - j,
        {
            let v = match f.stack.pop() {
                Some(v) => v,
                None => {
                    proof {
                        assert(false);
                    }
                    Value::Int(0)
                },
            };
            newf.locals.set(nargs - j, v);
            j = j + 1;
            proof {
                assert(f@.stack =~= fm.stack.take(fm.stack.len() - j));
            }
        }
        let rv = match f.stack.pop() {
            Some(v) => v,
            None => {
                proof {
                    assert(false);
                }
                Value::Int(0)
            },
        };
        newf.locals.set(0, rv);
        self.push_frame(f);
        self.push_frame(newf);
        self.pc = Pc { class: dci, method: MethodIndex::Dynamic(mi), instr: 0 };
        proof {
            assert(f@.stack =~= fm.stack.take(fm.stack.len() - nargs - 1));
            assert(newf@.stack =~= Seq::<Value>::empty());
            assert(newf@.locals =~= Seq::new(
                code2.max_locals as nat,
                |i: int|
                    if i == 0 {
                        fm.stack[fm.stack.len() - nargs - 1]
                    } else if i <= nargs {
                        args[i - 1]
                    } else {
                        Value::Int(0)
                    },
            ));
            assert(self@.frames =~= t0.frames.update(
                t0.frames.len() - 1,
                frame_with_stack(fm, fm.stack.take(fm.stack.len() - nargs - 1)),
            ).push(newf@));
        }
        Ok(StepEvent::Continue)
                }

    /// Enters or leaves the intrinsic monitor of the referenced object's
    /// class for thread `tid`.
    fn step_monitor(&mut self, enter: bool, tid: usize, ctx: &mut InterpContext) -> (r: Result<
        StepEvent,
        Error,
    >)
        requires
            old(self)@.frames.len() > 0,
            old(self)@.pc.instr < usize::MAX,
            old(self)@.pc.class < old(ctx)@.classes.len(),
        ensures
            ({
                let step = if enter {
                    spec_monitorenter_step(
                        old(ctx)@.classes,
                        old(ctx)@.heap,
                        old(self)@,
                        old(self)@.frames.last(),
                        tid,
                    )
                } else {
                    spec_monitorexit_step(
                        old(ctx)@.classes,
                        old(ctx)@.heap,
                        old(self)@,
                        old(self)@.frames.last(),
                        tid,
                    )
                };
                match r {
                    Ok(ev) => match ev {
                        StepEvent::Continue => step == (StepSpec::Next {
                            classes: final(ctx)@.classes,
                            heap: final(ctx)@.heap,
                            thread: final(self)@,
                        }),
                        StepEvent::Blocked => step == StepSpec::Blocked && final(ctx)@ == old(
                            ctx,
                        )@ && final(self)@ == old(self)@,
                        _ => false,
                    },
                    Err(e) => step == (StepSpec::Fail { error: e }) && final(ctx)@ == old(ctx)@
                        && final(self)@ == old(self)@,
                }
            }),
    {
        let ghost cs0 = ctx@.classes;
        let ghost heap0 = ctx@.heap;
        let ghost t0 = self@;
        let ghost fm = t0.frames.last();
        let cur_pc = self.pc;
        let fidx = self.stack.len() - 1;
        if enter {

            let slen = self.stack[fidx].stack.len();
            if slen < 1 {
                return Err(Error::InvalidClass);
            }
            let oid = match self.stack[fidx].stack[slen - 1] {
                Value::Reference(o) => o,
                _ => {
                    return Err(Error::InvalidClass);
                },
            };
            if oid >= ctx.heap.len() {
                return Err(Error::InvalidClass);
            }
            let ci = match ctx.heap[oid].class {
                Some(c) => c,
                None => {
                    return Err(Error::InvalidClass);
                },
            };
            if ci >= ctx.classes.len() {
                return Err(Error::InvalidClass);
            }
            let can = match ctx.classes[ci].monitor.owner {
                None => true,
                Some(owner) => owner == tid && ctx.classes[ci].monitor.depth < u64::MAX,
            };
            if !can {
                return Ok(StepEvent::Blocked);
            }
            let mut f = self.pop_frame();
            let _ = f.stack.pop();
            self.push_frame(f);
            self.advance_pc();
            let mut cl = ctx.classes.remove(ci);
            let ok = cl.monitor_enter(tid);
            let ghost clm = cl@;
            ctx.classes.insert(ci, cl);
            proof {
                assert(ok);
                assert(ctx@.classes =~= cs0.update(ci as int, clm));
                assert(self@ =~~= spec_advance(
                    t0,
                    frame_with_stack(fm, fm.stack.drop_last()),
                ));
            }
            Ok(StepEvent::Continue)
        } else {

            let slen = self.stack[fidx].stack.len();
            if slen < 1 {
                return Err(Error::InvalidClass);
            }
            let oid = match self.stack[fidx].stack[slen - 1] {
                Value::Reference(o) => o,
                _ => {
                    return Err(Error::InvalidClass);
                },
            };
            if oid >= ctx.heap.len() {
                return Err(Error::InvalidClass);
            }
            let ci = match ctx.heap[oid].class {
                Some(c) => c,
                None => {
                    return Err(Error::InvalidClass);
                },
            };
            if ci >= ctx.classes.len() {
                return Err(Error::InvalidClass);
            }
            let holds = match ctx.classes[ci].monitor.owner {
                Some(owner) => owner == tid && ctx.classes[ci].monitor.depth > 0,
                None => false,
            };
            if !holds {
                return Err(Error::InvalidClass);
            }
            let mut f = self.pop_frame();
            let _ = f.stack.pop();
            self.push_frame(f);
            self.advance_pc();
            let mut cl = ctx.classes.remove(ci);
            let ok = cl.monitor_exit(tid);
            let ghost clm = cl@;
            ctx.classes.insert(ci, cl);
            proof {
                assert(ok);
                assert(ctx@.classes =~= cs0.update(ci as int, clm));
                assert(self@ =~~= spec_advance(
                    t0,
                    frame_with_stack(fm, fm.stack.drop_last()),
                ));
            }
            Ok(StepEvent::Continue)
        }
    }
}

} // verus!
