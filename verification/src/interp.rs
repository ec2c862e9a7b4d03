//! The interpreter: the registry of loaded classes, the heap of object
//! instances, and the round-robin scheduler that advances every runnable
//! thread by one instruction per pass.

use vstd::prelude::*;
use crate::class::{Class, ClassModel, MethodIndex, spec_method_index};
use crate::error::Error;
use crate::thread::{StepEvent, StepSpec, Thread, ThreadModel, spec_new_thread, spec_step};
use crate::value::{Object, ObjectModel, Value};

verus! {

/// The view of the class registry.
pub open spec fn classes_model(v: Seq<Class>) -> Seq<ClassModel> {
    v.map_values(|c: Class| c@)
}

/// The view of the heap.
pub open spec fn heap_model(v: Seq<Object>) -> Seq<ObjectModel> {
    v.map_values(|o: Object| o@)
}

/// The registry index of the named class: the latest class registered
/// under that name. Re-loading a name shadows the class loaded before,
/// as a replacing registry insert would; threads already started on the
/// old class keep running it by index.
pub open spec fn spec_class_index(cs: Seq<ClassModel>, name: Seq<u8>) -> Option<int>
    decreases cs.len(),
{
    if cs.len() == 0 {
        None
    } else if cs.last().name == name {
        Some(cs.len() - 1)
    } else {
        spec_class_index(cs.drop_last(), name)
    }
}

/// A backwards scan that stopped at `i` (or found nothing, `i == -1`)
/// determines [`spec_class_index`].
proof fn lemma_class_index_at(cs: Seq<ClassModel>, name: Seq<u8>, i: int)
    requires
        -1 <= i < cs.len(),
        i >= 0 ==> cs[i].name == name,
        forall|j: int| i < j < cs.len() ==> (#[trigger] cs[j]).name != name,
    ensures
        spec_class_index(cs, name) == if i >= 0 {
            Some(i)
        } else {
            None::<int>
        },
    decreases cs.len(),
{
    if cs.len() > 0 && i < cs.len() - 1 {
        assert(forall|j: int|
            i < j < cs.drop_last().len() ==> (#[trigger] cs.drop_last()[j]).name != name);
        lemma_class_index_at(cs.drop_last(), name, i);
    }
}

/// The process-wide registry of loaded classes and the heap of objects.
/// The registry is append-only and keyed by class name; a lookup finds
/// the latest class registered under a name.
pub struct InterpContext {
    pub classes: Vec<Class>,
    pub heap: Vec<Object>,
}

/// The mathematical model of an [`InterpContext`].
#[verifier::ext_equal]
pub ghost struct CtxModel {
    pub classes: Seq<ClassModel>,
    pub heap: Seq<ObjectModel>,
}

impl View for InterpContext {
    type V = CtxModel;

    open spec fn view(&self) -> CtxModel {
        CtxModel { classes: classes_model(self.classes@), heap: heap_model(self.heap@) }
    }
}

impl InterpContext {
    /// An empty context: no classes, no objects.
    pub fn new() -> (r: InterpContext)
        ensures
            r@.classes.len() == 0,
            r@.heap.len() == 0,
    {
        InterpContext { classes: Vec::new(), heap: Vec::new() }
    }

    /// The registry index of the named class, if one is loaded.
    pub fn class(&self, name: &Vec<u8>) -> (r: Option<usize>)
        ensures
            match r {
                Some(i) => spec_class_index(self@.classes, name@) == Some(i as int) && i
                    < self@.classes.len(),
                None => spec_class_index(self@.classes, name@) is None,
            },
    {
        let ghost cs = self@.classes;
        let mut i: usize = self.classes.len();
        while i > 0
            invariant
                i <= cs.len(),
                cs == classes_model(self.classes@),
                forall|j: int| i <= j < cs.len() ==> (#[trigger] cs[j]).name != name@,
            decreases i,
        {
            i = i - 1;
            if crate::reader::bytes_eq(&self.classes[i].name, name) {
                proof {
                    lemma_class_index_at(cs, name@, i as int);
                }
                return Some(i);
            }
        }
        proof {
            lemma_class_index_at(cs, name@, -1);
        }
        None
    }
}

/// The view of a thread list.
pub open spec fn threads_model(v: Seq<Thread>) -> Seq<ThreadModel> {
    v.map_values(|t: Thread| t@)
}

/// The name of the instance entry-point method, `run`.
pub open spec fn run_name() -> Seq<u8> {
    seq![114u8, 117u8, 110u8]
}

/// The descriptor of `run`: no parameters, `void`.
pub open spec fn run_descriptor() -> Seq<u8> {
    seq![40u8, 41u8, 86u8]
}

/// The name of the static entry-point method, `main`.
pub open spec fn main_name() -> Seq<u8> {
    seq![109u8, 97u8, 105u8, 110u8]
}

/// The descriptor of `main`: one `String[]` parameter, `void`.
pub open spec fn main_descriptor() -> Seq<u8> {
    seq![40u8, 91u8, 76u8, 106u8, 97u8, 118u8, 97u8, 47u8, 108u8, 97u8, 110u8, 103u8, 47u8, 83u8,
        116u8, 114u8, 105u8, 110u8, 103u8, 59u8, 41u8, 86u8]
}

fn run_name_bytes() -> (r: (Vec<u8>, Vec<u8>))
    ensures
        r.0@ == run_name(),
        r.1@ == run_descriptor(),
{
    let mut n: Vec<u8> = Vec::new();
    n.push(114);
    n.push(117);
    n.push(110);
    let mut d: Vec<u8> = Vec::new();
    d.push(40);
    d.push(41);
    d.push(86);
    proof {
        assert(n@ =~= run_name());
        assert(d@ =~= run_descriptor());
    }
    (n, d)
}

fn main_name_bytes() -> (r: (Vec<u8>, Vec<u8>))
    ensures
        r.0@ == main_name(),
        r.1@ == main_descriptor(),
{
    let mut n: Vec<u8> = Vec::new();
    n.push(109);
    n.push(97);
    n.push(105);
    n.push(110);
    let mut d: Vec<u8> = Vec::new();
    d.push(40);
    d.push(91);
    d.push(76);
    d.push(106);
    d.push(97);
    d.push(118);
    d.push(97);
    d.push(47);
    d.push(108);
    d.push(97);
    d.push(110);
    d.push(103);
    d.push(47);
    d.push(83);
    d.push(116);
    d.push(114);
    d.push(105);
    d.push(110);
    d.push(103);
    d.push(59);
    d.push(41);
    d.push(86);
    proof {
        assert(n@ =~= main_name());
        assert(d@ =~= main_descriptor());
    }
    (n, d)
}

/// Where a scheduling run ends: the registry, heap and threads after the
/// steps taken and whether every thread had terminated — or the error of
/// the step that failed, with the machine as it stood at that step.
#[verifier::ext_equal]
pub ghost enum RunSpec {
    Went {
        classes: Seq<ClassModel>,
        heap: Seq<ObjectModel>,
        threads: Seq<ThreadModel>,
        done: bool,
    },
    Stopped {
        error: Error,
        classes: Seq<ClassModel>,
        heap: Seq<ObjectModel>,
        threads: Seq<ThreadModel>,
    },
}

/// One thread's turn: a thread with no frames yields its turn; a runnable
/// thread advances by exactly one instruction, as [`spec_step`] says.
pub open spec fn spec_turn(
    cs: Seq<ClassModel>,
    heap: Seq<ObjectModel>,
    ts: Seq<ThreadModel>,
    i: int,
) -> RunSpec {
    let t = ts[i];
    if t.frames.len() == 0 {
        RunSpec::Went { classes: cs, heap, threads: ts, done: false }
    } else {
        match spec_step(cs, heap, t, i as usize) {
            StepSpec::Next { classes, heap: h2, thread } => RunSpec::Went {
                classes,
                heap: h2,
                threads: ts.update(i, thread),
                done: false,
            },
            StepSpec::Terminated { thread } => RunSpec::Went {
                classes: cs,
                heap,
                threads: ts.update(i, thread),
                done: false,
            },
            StepSpec::Died { thread } => RunSpec::Went {
                classes: cs,
                heap,
                threads: ts.update(i, thread),
                done: false,
            },
            StepSpec::Blocked => RunSpec::Went { classes: cs, heap, threads: ts, done: false },
            StepSpec::Fail { error } => RunSpec::Stopped { error, classes: cs, heap, threads: ts },
        }
    }
}

/// The turns of threads `i` and after, one pass, in thread order.
pub open spec fn spec_pass_from(
    cs: Seq<ClassModel>,
    heap: Seq<ObjectModel>,
    ts: Seq<ThreadModel>,
    i: int,
) -> RunSpec
    decreases ts.len() - i,
{
    if i < 0 || i >= ts.len() {
        RunSpec::Went { classes: cs, heap, threads: ts, done: false }
    } else {
        match spec_turn(cs, heap, ts, i) {
            RunSpec::Went { classes, heap: h2, threads, .. } => spec_pass_from(
                classes,
                h2,
                threads,
                i + 1,
            ),
            stopped => stopped,
        }
    }
}

/// Round-robin scheduling at single-instruction granularity: each pass
/// advances every runnable thread, in thread order, by exactly one
/// instruction before any thread advances twice; a pass on which no
/// thread is runnable ends the run with `done`; an exhausted budget ends
/// it without; a failed step stops the run where it stood.
pub open spec fn spec_run(
    cs: Seq<ClassModel>,
    heap: Seq<ObjectModel>,
    ts: Seq<ThreadModel>,
    passes: nat,
) -> RunSpec
    decreases passes,
{
    if passes == 0 {
        RunSpec::Went { classes: cs, heap, threads: ts, done: false }
    } else if forall|j: int| 0 <= j < ts.len() ==> (#[trigger] ts[j]).frames.len() == 0 {
        RunSpec::Went { classes: cs, heap, threads: ts, done: true }
    } else {
        match spec_pass_from(cs, heap, ts, 0) {
            RunSpec::Went { classes, heap: h2, threads, .. } => spec_run(
                classes,
                h2,
                threads,
                (passes - 1) as nat,
            ),
            stopped => stopped,
        }
    }
}

/// A run that reports `done` left every thread without frames.
pub proof fn lemma_run_done_terminated(
    cs: Seq<ClassModel>,
    heap: Seq<ObjectModel>,
    ts: Seq<ThreadModel>,
    passes: nat,
)
    requires
        spec_run(cs, heap, ts, passes) matches RunSpec::Went { done, .. } && done,
    ensures
        spec_run(cs, heap, ts, passes) matches RunSpec::Went { threads, .. } ==> forall|j: int|
            0 <= j < threads.len() ==> (#[trigger] threads[j]).frames.len() == 0,

    decreases passes,
{
    if passes > 0 && !(forall|j: int| 0 <= j < ts.len() ==> (#[trigger] ts[j]).frames.len() == 0) {
        match spec_pass_from(cs, heap, ts, 0) {
            RunSpec::Went { classes, heap: h2, threads, .. } => {
                lemma_run_done_terminated(classes, h2, threads, (passes - 1) as nat);
            },
            _ => {
            },
        }
    }
}

/// The interpreter: the shared context and the threads it schedules.
pub struct Interp {
    pub context: InterpContext,
    pub threads: Vec<Thread>,
}

impl Interp {
    /// A fresh interpreter with no classes and no threads.
    pub fn new() -> (r: Interp)
        ensures
            r.context@.classes.len() == 0,
            r.context@.heap.len() == 0,
            r.threads@.len() == 0,
    {
        Interp { context: InterpContext::new(), threads: Vec::new() }
    }

    /// Parses a class file and appends it to the registry. A malformed
    /// file fails with `InvalidClass` and loads nothing: no partially
    /// populated class ever enters the registry.
    pub fn load_class(&mut self, bytes: &[u8]) -> (r: Result<(), Error>)
        ensures
            match r {
                Ok(()) => final(self).context@.classes.len() == old(self).context@.classes.len()
                    + 1 && crate::class::spec_class_parsed(
                    bytes@,
                    final(self).context@.classes.last(),
                ) && final(self).context@.classes.take(
                    old(self).context@.classes.len() as int,
                ) == old(self).context@.classes && final(self).context@.heap == old(
                    self,
                ).context@.heap && final(self).threads@ == old(self).threads@,
                Err(e) => e == Error::InvalidClass && (forall|c: ClassModel|
                    !crate::class::spec_class_parsed(bytes@, c)) && *final(self) == *old(self),
            },
    {
        let class = Class::parse(bytes)?;
        self.context.classes.push(class);
        proof {
            assert(classes_model(self.context.classes@).take(
                old(self).context@.classes.len() as int,
            ) =~= classes_model(old(self).context.classes@));
        }
        Ok(())
    }

    /// Starts a thread on the named class's instance `run()` method.
    /// Fails with `ClassNotFound` when no such class is loaded and with
    /// `ClassNotRunnable` when the class has no `run()V` method with
    /// code.
    pub fn new_thread_runnable(&mut self, class_name: &Vec<u8>) -> (r: Result<(), Error>)
        ensures
            ({
                let cs = old(self).context@.classes;
                match r {
                    Ok(()) => spec_class_index(cs, class_name@) matches Some(ci)
                        && spec_method_index(cs[ci].methods, run_name(), run_descriptor())
                        matches Some(mi) && cs[ci].methods[mi].code matches Some(code)
                        && threads_model(final(self).threads@) == threads_model(
                        old(self).threads@,
                    ).push(spec_new_thread(ci as usize, MethodIndex::Dynamic(mi as usize), code))
                        && final(self).context == old(self).context,
                    Err(e) => *final(self) == *old(self) && (match e {
                        Error::ClassNotFound => spec_class_index(cs, class_name@) is None,
                        Error::ClassNotRunnable => spec_class_index(cs, class_name@) matches Some(
                            ci,
                        ) && !(spec_method_index(cs[ci].methods, run_name(), run_descriptor())
                        matches Some(mi) && cs[ci].methods[mi].code is Some),
                        _ => false,
                    }),
                }
            }),
    {
        let (n, d) = run_name_bytes();
        let ci = match self.context.class(class_name) {
            Some(ci) => ci,
            None => {
                return Err(Error::ClassNotFound);
            },
        };
        let mix = match self.context.classes[ci].method_index(&n, &d) {
            Some(ix) => ix,
            None => {
                return Err(Error::ClassNotRunnable);
            },
        };
        let th = match Thread::new(ci, &self.context.classes[ci], mix) {
            Ok(t) => t,
            Err(_) => {
                return Err(Error::ClassNotRunnable);
            },
        };
        let ghost thm = th@;
        self.threads.push(th);
        proof {
            assert(threads_model(self.threads@) =~= threads_model(old(self).threads@).push(thm));
        }
        Ok(())
    }

    /// Starts a thread on the named class's static `main(String[])`
    /// method. Fails with `ClassNotFound` when no such class is loaded
    /// and with `ClassNotMain` when the class has no such method with
    /// code.
    pub fn new_thread_main(&mut self, class_name: &Vec<u8>) -> (r: Result<(), Error>)
        ensures
            ({
                let cs = old(self).context@.classes;
                match r {
                    Ok(()) => spec_class_index(cs, class_name@) matches Some(ci)
                        && spec_method_index(cs[ci].static_methods, main_name(), main_descriptor())
                        matches Some(mi) && cs[ci].static_methods[mi].code matches Some(code)
                        && threads_model(final(self).threads@) == threads_model(
                        old(self).threads@,
                    ).push(spec_new_thread(ci as usize, MethodIndex::Static(mi as usize), code))
                        && final(self).context == old(self).context,
                    Err(e) => *final(self) == *old(self) && (match e {
                        Error::ClassNotFound => spec_class_index(cs, class_name@) is None,
                        Error::ClassNotMain => spec_class_index(cs, class_name@) matches Some(ci)
                            && !(spec_method_index(
                            cs[ci].static_methods,
                            main_name(),
                            main_descriptor(),
                        ) matches Some(mi) && cs[ci].static_methods[mi].code is Some),
                        _ => false,
                    }),
                }
            }),
    {
        let (n, d) = main_name_bytes();
        let ci = match self.context.class(class_name) {
            Some(ci) => ci,
            None => {
                return Err(Error::ClassNotFound);
            },
        };
        let mix = match self.context.classes[ci].static_method_index(&n, &d) {
            Some(ix) => ix,
            None => {
                return Err(Error::ClassNotMain);
            },
        };
        let th = match Thread::new(ci, &self.context.classes[ci], mix) {
            Ok(t) => t,
            Err(_) => {
                return Err(Error::ClassNotMain);
            },
        };
        let ghost thm = th@;
        self.threads.push(th);
        proof {
            assert(threads_model(self.threads@) =~= threads_model(old(self).threads@).push(thm));
        }
        Ok(())
    }

    /// Round-robin scheduling at single-instruction granularity, exactly
    /// as [`spec_run`] says: each pass advances every runnable thread, in
    /// thread order, by one instruction; a pass on which no thread is
    /// runnable ends the run with `true`; an exhausted budget ends it
    /// with `false`; the error of a failed step stops the run, reported
    /// unchanged with the machine as it stood at that step.
    #[verifier::loop_isolation(false)]
    pub fn run(&mut self, passes: u64) -> (r: Result<bool, Error>)
        ensures
            ({
                let outcome = spec_run(
                    old(self).context@.classes,
                    old(self).context@.heap,
                    threads_model(old(self).threads@),
                    passes as nat,
                );
                match r {
                    Ok(done) => outcome == (RunSpec::Went {
                        classes: final(self).context@.classes,
                        heap: final(self).context@.heap,
                        threads: threads_model(final(self).threads@),
                        done,
                    }),
                    Err(e) => outcome == (RunSpec::Stopped {
                        error: e,
                        classes: final(self).context@.classes,
                        heap: final(self).context@.heap,
                        threads: threads_model(final(self).threads@),
                    }),
                }
            }),
    {
        let ghost cs0 = self.context@.classes;
        let ghost heap0 = self.context@.heap;
        let ghost ts0 = threads_model(self.threads@);
        let mut pass: u64 = 0;
        while pass < passes
            invariant
                pass <= passes,
                spec_run(cs0, heap0, ts0, passes as nat) == spec_run(
                    self.context@.classes,
                    self.context@.heap,
                    threads_model(self.threads@),
                    (passes - pass) as nat,
                ),
            decreases passes - pass,
        {
            let ghost sp_cs = self.context@.classes;
            let ghost sp_heap = self.context@.heap;
            let ghost sp_ts = threads_model(self.threads@);
            let mut progressed = false;
            let mut i: usize = 0;
            while i < self.threads.len()
                invariant
                    i <= self.threads@.len(),
                    threads_model(self.threads@).len() == sp_ts.len(),
                    spec_pass_from(sp_cs, sp_heap, sp_ts, 0) == spec_pass_from(
                        self.context@.classes,
                        self.context@.heap,
                        threads_model(self.threads@),
                        i as int,
                    ),
                    forall|j: int|
                        i <= j < sp_ts.len() ==> threads_model(self.threads@)[j] == sp_ts[j],
                    !progressed ==> self.context@.classes == sp_cs && self.context@.heap == sp_heap
                        && threads_model(self.threads@) == sp_ts && forall|j: int|
                        0 <= j < i ==> (#[trigger] sp_ts[j]).frames.len() == 0,
                    progressed ==> exists|j: int|
                        0 <= j < sp_ts.len() && (#[trigger] sp_ts[j]).frames.len() > 0,
                decreases self.threads@.len() - i,
            {
                let ghost c_cs = self.context@.classes;
                let ghost c_heap = self.context@.heap;
                let ghost c_ts = threads_model(self.threads@);
                let running = self.threads[i].is_running();
                if running {
                    let mut th = self.threads.remove(i);
                    let res = th.exec_one(i, &mut self.context);
                    let ghost thm = th@;
                    self.threads.insert(i, th);
                    proof {
                        assert(threads_model(self.threads@) =~= c_ts.update(i as int, thm));
                    }
                    match res {
                        Ok(ev) => {
                            proof {
                                if ev == StepEvent::Blocked {
                                    assert(c_ts.update(i as int, thm) =~= c_ts);
                                }
                            }
                        },
                        Err(e) => {
                            proof {
                                assert(c_ts.update(i as int, thm) =~= c_ts);
                                assert(threads_model(self.threads@) =~= c_ts);
                                assert(spec_turn(c_cs, c_heap, c_ts, i as int)
                                    == (RunSpec::Stopped {
                                    error: e,
                                    classes: c_cs,
                                    heap: c_heap,
                                    threads: c_ts,
                                }));
                                assert(spec_pass_from(c_cs, c_heap, c_ts, i as int)
                                    == (RunSpec::Stopped {
                                    error: e,
                                    classes: c_cs,
                                    heap: c_heap,
                                    threads: c_ts,
                                }));
                                assert(sp_ts[i as int].frames.len() > 0);
                                assert(!(forall|j: int|
                                    0 <= j < sp_ts.len() ==> (#[trigger] sp_ts[j]).frames.len()
                                        == 0));
                            }
                            return Err(e);
                        },
                    }
                    progressed = true;
                } else {
                    proof {
                        assert(spec_turn(c_cs, c_heap, c_ts, i as int) == (RunSpec::Went {
                            classes: c_cs,
                            heap: c_heap,
                            threads: c_ts,
                            done: false,
                        }));
                    }
                }
                i = i + 1;
            }
            if !progressed {
                proof {
                    assert(forall|j: int|
                        0 <= j < sp_ts.len() ==> (#[trigger] sp_ts[j]).frames.len() == 0);
                    assert(spec_run(sp_cs, sp_heap, sp_ts, (passes - pass) as nat)
                        == (RunSpec::Went {
                        classes: sp_cs,
                        heap: sp_heap,
                        threads: sp_ts,
                        done: true,
                    }));
                }
                return Ok(true);
            }
            proof {
                assert(spec_pass_from(
                    self.context@.classes,
                    self.context@.heap,
                    threads_model(self.threads@),
                    threads_model(self.threads@).len() as int,
                ) == (RunSpec::Went {
                    classes: self.context@.classes,
                    heap: self.context@.heap,
                    threads: threads_model(self.threads@),
                    done: false,
                }));
                assert(!(forall|j: int|
                    0 <= j < sp_ts.len() ==> (#[trigger] sp_ts[j]).frames.len() == 0));
            }
            pass = pass + 1;
        }
        Ok(false)
    }
}


impl Class {
    /// The registry index of this class's superclass, resolved lazily by
    /// name through the context; `None` while the superclass is not
    /// loaded (a recoverable condition, not a structural one).
    pub fn superclass(&self, ctx: &InterpContext) -> (r: Option<usize>)
        ensures
            match r {
                Some(i) => spec_class_index(ctx@.classes, self@.superclass_name) == Some(i as int)
                    && i < ctx@.classes.len(),
                None => spec_class_index(ctx@.classes, self@.superclass_name) is None,
            },
    {
        ctx.class(&self.superclass_name)
    }

    /// Resolves the `FieldRef` constant at `constant_index` through its
    /// class, name-and-type, and text constants to a (class name, field
    /// name, descriptor) triple, then reads that static field's cell from
    /// the named class in the registry. A broken chain or a missing field
    /// is `InvalidClass`; an unloaded class is `ClassNotFound`.
    pub fn get_static_from_constant(&self, ctx: &InterpContext, constant_index: u16) -> (r: Result<
        Value,
        Error,
    >)
        ensures
            ({
                let resolved = crate::thread::spec_field_ref(
                    self@.constant_pool,
                    constant_index as int,
                );
                match r {
                    Ok(v) => resolved matches Some((cn, fname, fdesc))
                        && spec_class_index(ctx@.classes, cn) matches Some(ci)
                        && crate::class::spec_field_index(
                        ctx@.classes[ci].static_fields,
                        fname,
                        fdesc,
                    ) matches Some(fi) && fi < ctx@.classes[ci].static_values.len() && v
                        == ctx@.classes[ci].static_values[fi],
                    Err(e) => match e {
                        Error::InvalidClass => resolved is None || (
                        resolved matches Some((cn, fname, fdesc)) && spec_class_index(
                            ctx@.classes,
                            cn,
                        ) matches Some(ci) && !(crate::class::spec_field_index(
                            ctx@.classes[ci].static_fields,
                            fname,
                            fdesc,
                        ) matches Some(fi) && fi < ctx@.classes[ci].static_values.len())),
                        Error::ClassNotFound => resolved matches Some((cn, fname, fdesc))
                            && spec_class_index(ctx@.classes, cn) is None,
                        _ => false,
                    },
                }
            }),
    {
        let (cn, fname, fdesc) = match crate::thread::resolve_field_ref(
            &self.constant_pool,
            constant_index,
        ) {
            Some(v) => v,
            None => {
                return Err(Error::InvalidClass);
            },
        };
        let ci = match ctx.class(&cn) {
            Some(ci) => ci,
            None => {
                return Err(Error::ClassNotFound);
            },
        };
        let fi = match ctx.classes[ci].static_field_index(&fname, &fdesc) {
            Some(ix) => ix,
            None => {
                return Err(Error::InvalidClass);
            },
        };
        match ctx.classes[ci].static_field_value(fi) {
            Some(v) => Ok(v),
            None => Err(Error::InvalidClass),
        }
    }
}

} // verus!
