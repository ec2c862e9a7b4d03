//! Properties that relate several operations of the library, stated and
//! proved once over the models that the operations' own contracts use.

use vstd::prelude::*;
use crate::class::{ACCEPTED_MAJOR, ACCEPTED_MINOR, CLASS_MAGIC, ClassModel, MethodModel,
    class_with_static_values, method_of_raw, spec_class_parsed, spec_code_attr_index,
    spec_field_index};
use crate::code::{CodeModel, code_attr_parsed, lemma_code_decoded_same_len};
use crate::interp::spec_class_index;
use crate::reader::{be16, be32};
use crate::thread::{FrameModel, StepSpec, ThreadModel, frame_with_stack, spec_branch_step,
    spec_code_at, spec_field_ref, spec_find_handler, spec_getstatic_step, spec_push_step,
    spec_putstatic_step, spec_step, spec_unwind};
use crate::value::{ObjectModel, Value};

verus! {

/// The signature of a method: its name, descriptor, and access flags.
pub open spec fn method_signatures(ms: Seq<MethodModel>) -> Seq<(Seq<u8>, Seq<u8>, u16)> {
    ms.map_values(|m: MethodModel| (m.name, m.descriptor, m.access))
}

/// Two decoded method codes agree: both absent, or both present with the
/// same bounds, exception table, nested attributes, and instruction
/// count (each instruction is pinned per position by the decode
/// relation).
pub open spec fn method_code_agrees(a: Option<CodeModel>, b: Option<CodeModel>) -> bool {
    match (a, b) {
        (None, None) => true,
        (Some(x), Some(y)) => x.max_stack == y.max_stack && x.max_locals == y.max_locals
            && x.exception_table == y.exception_table && x.attributes == y.attributes
            && x.code.len() == y.code.len(),
        _ => false,
    }
}

/// Element-wise code agreement of two method groups parsed from the same
/// member records.
proof fn lemma_methods_code_agree(
    rs: Seq<crate::class::FieldModel>,
    pool: Seq<crate::constant::ConstantModel>,
    ms1: Seq<MethodModel>,
    ms2: Seq<MethodModel>,
)
    requires
        crate::class::methods_match(rs, pool, ms1),
        crate::class::methods_match(rs, pool, ms2),
    ensures
        forall|i: int|
            0 <= i < ms1.len() ==> method_code_agrees(
                (#[trigger] ms1[i]).code,
                ms2[i].code,
            ),
{
    assert forall|i: int|
        0 <= i < ms1.len() implies method_code_agrees(
        (#[trigger] ms1[i]).code,
        ms2[i].code,
    ) by {
        assert(method_of_raw(rs[i], pool, ms1[i]));
        assert(method_of_raw(rs[i], pool, ms2[i]));
        match spec_code_attr_index(rs[i].attributes, 0) {
            None => {
            },
            Some(ai) => {
                let info = rs[i].attributes[ai].info;
                let x = ms1[i].code->Some_0;
                let y = ms2[i].code->Some_0;
                let cl = crate::reader::be32(info, 4) as int;
                lemma_code_decoded_same_len(info.subrange(8, 8 + cl), 0, x.code, y.code);
            },
        }
    }
}

/// Parsing is deterministic: two classes parsed from identical bytes have
/// the same name, the same field lists, the same method signatures in
/// both groups, and the same constant pool, interfaces, attributes, and
/// zero-initialized static cells.
pub proof fn lemma_parse_deterministic(s: Seq<u8>, c1: ClassModel, c2: ClassModel)
    requires
        spec_class_parsed(s, c1),
        spec_class_parsed(s, c2),
    ensures
        c1.name == c2.name,
        c1.superclass_name == c2.superclass_name,
        c1.constant_pool == c2.constant_pool,
        c1.static_fields == c2.static_fields,
        c1.fields == c2.fields,
        c1.static_values == c2.static_values,
        c1.interfaces == c2.interfaces,
        c1.attributes == c2.attributes,
        method_signatures(c1.methods) == method_signatures(c2.methods),
        method_signatures(c1.static_methods) == method_signatures(c2.static_methods),
        forall|i: int|
            0 <= i < c1.methods.len() ==> method_code_agrees(
                (#[trigger] c1.methods[i]).code,
                c2.methods[i].code,
            ),
        forall|i: int|
            0 <= i < c1.static_methods.len() ==> method_code_agrees(
                (#[trigger] c1.static_methods[i]).code,
                c2.static_methods[i].code,
            ),
{
    let pool = crate::constant::spec_parse_constant_pool(s, 8)->Some_0.0;
    let p1 = crate::constant::spec_parse_constant_pool(s, 8)->Some_0.1;
    let p2 = crate::class::spec_parse_interfaces(s, p1 + 6)->Some_0.1;
    let p3 = crate::class::spec_parse_field_list(s, p2, pool)->Some_0.1;
    let raws = crate::class::spec_parse_field_list(s, p3, pool)->Some_0.0;
    lemma_methods_code_agree(
        raws.filter(crate::class::static_member()),
        pool,
        c1.static_methods,
        c2.static_methods,
    );
    lemma_methods_code_agree(
        raws.filter(crate::class::instance_member()),
        pool,
        c1.methods,
        c2.methods,
    );
    assert(method_signatures(c1.methods) =~= method_signatures(c2.methods)) by {
        assert(c1.methods.len() == c2.methods.len());
        assert forall|i: int|
            0 <= i < c1.methods.len() implies method_signatures(c1.methods)[i]
            == method_signatures(c2.methods)[i] by {
            assert(c1.methods[i].name == c2.methods[i].name && c1.methods[i].descriptor
                == c2.methods[i].descriptor && c1.methods[i].access == c2.methods[i].access);
        }
    }
    assert(method_signatures(c1.static_methods) =~= method_signatures(c2.static_methods)) by {
        assert(c1.static_methods.len() == c2.static_methods.len());
        assert forall|i: int|
            0 <= i < c1.static_methods.len() implies method_signatures(c1.static_methods)[i]
            == method_signatures(c2.static_methods)[i] by {
            assert(c1.static_methods[i].name == c2.static_methods[i].name
                && c1.static_methods[i].descriptor == c2.static_methods[i].descriptor
                && c1.static_methods[i].access == c2.static_methods[i].access);
        }
    }
}

/// A wrong magic number, an unaccepted version pair, or a buffer too
/// short to hold a header parses as no class at all: together with the
/// parser's own contract this forces `parse` to fail with `InvalidClass`
/// on every such input.
pub proof fn lemma_header_rejected(s: Seq<u8>, c: ClassModel)
    requires
        s.len() < 10 || be32(s, 0) != CLASS_MAGIC || be16(s, 4) != ACCEPTED_MINOR || be16(s, 6)
            != ACCEPTED_MAJOR,
    ensures
        !spec_class_parsed(s, c),
{
}

/// A successful class lookup lands in bounds on the sought name.
proof fn lemma_class_index_bounds(cs: Seq<ClassModel>, name: Seq<u8>)
    ensures
        spec_class_index(cs, name) matches Some(i) ==> 0 <= i < cs.len() && cs[i].name == name,
    decreases cs.len(),
{
    if cs.len() > 0 && cs.last().name != name {
        lemma_class_index_bounds(cs.drop_last(), name);
    }
}

/// A successful field lookup lands in bounds.
proof fn lemma_field_index_bounds(
    fs: Seq<crate::class::FieldModel>,
    name: Seq<u8>,
    descriptor: Seq<u8>,
    k: int,
)
    requires
        0 <= k <= fs.len(),
    ensures
        crate::class::spec_field_index_from(fs, name, descriptor, k) matches Some(i) ==> k <= i
            < fs.len(),
    decreases fs.len() - k,
{
    if k < fs.len() {
        lemma_field_index_bounds(fs, name, descriptor, k + 1);
    }
}

/// Class lookup sees only names, so it is stable under any update that
/// keeps every class's name.
proof fn lemma_class_index_stable(cs: Seq<ClassModel>, cs2: Seq<ClassModel>, name: Seq<u8>)
    requires
        cs2.len() == cs.len(),
        forall|j: int| 0 <= j < cs.len() ==> (#[trigger] cs2[j]).name == cs[j].name,
    ensures
        spec_class_index(cs2, name) == spec_class_index(cs, name),
    decreases cs.len(),
{
    if cs.len() > 0 {
        assert(cs2.last().name == cs.last().name);
        assert(forall|j: int|
            0 <= j < cs.drop_last().len() ==> (#[trigger] cs2.drop_last()[j]).name
                == cs.drop_last()[j].name);
        lemma_class_index_stable(cs.drop_last(), cs2.drop_last(), name);
    }
}

/// A static field read through the same symbolic reference, performed by
/// any thread against the registry a static field write produced, pushes
/// exactly the last-written value.
pub proof fn lemma_putstatic_then_getstatic(
    cs: Seq<ClassModel>,
    heap: Seq<ObjectModel>,
    t: ThreadModel,
    f: FrameModel,
    n: u16,
    cs2: Seq<ClassModel>,
    heap2: Seq<ObjectModel>,
    t2: ThreadModel,
    f2: FrameModel,
    n2: u16,
)
    requires
        0 <= t.pc.class < cs.len(),
        0 <= t2.pc.class < cs2.len(),
        spec_putstatic_step(cs, heap, t, f, n) matches StepSpec::Next { classes, .. } && classes
            == cs2,
        spec_field_ref(cs2[t2.pc.class as int].constant_pool, n2 as int) == spec_field_ref(
            cs[t.pc.class as int].constant_pool,
            n as int,
        ),
    ensures
        spec_getstatic_step(cs2, heap2, t2, f2, n2) == spec_push_step(
            cs2,
            heap2,
            t2,
            f2,
            f.stack.last(),
        ),
{
    let pool = cs[t.pc.class as int].constant_pool;
    match spec_field_ref(pool, n as int) {
        Some((cn, fname, fdesc)) => {
            match spec_class_index(cs, cn) {
                Some(ci) => {
                    lemma_class_index_bounds(cs, cn);
                    let fi = spec_field_index(cs[ci].static_fields, fname, fdesc)->Some_0;
                    lemma_field_index_bounds(cs[ci].static_fields, fname, fdesc, 0);
                    assert(cs2 == cs.update(
                        ci,
                        class_with_static_values(
                            cs[ci],
                            cs[ci].static_values.update(fi, f.stack.last()),
                        ),
                    ));
                    assert(forall|j: int| 0 <= j < cs.len() ==> (#[trigger] cs2[j]).name
                        == cs[j].name);
                    lemma_class_index_stable(cs, cs2, cn);
                    assert(cs2[ci].static_fields == cs[ci].static_fields);
                },
                None => {
                    assert(false);
                },
            }
        },
        None => {
            assert(false);
        },
    }
}

/// An index outside `[low, high]` takes a table switch's default offset:
/// the step branches by `default`, relative to the switch's own position.
pub proof fn lemma_tableswitch_default(
    cs: Seq<ClassModel>,
    heap: Seq<ObjectModel>,
    t: ThreadModel,
    code: CodeModel,
    d: i32,
    lo: i32,
    hi: i32,
    idx: i32,
    tid: usize,
)
    requires
        t.frames.len() > 0,
        spec_code_at(cs, t.pc) == Some(code),
        t.pc.instr < code.code.len(),
        code.code[t.pc.instr as int] matches crate::code::Instr::Tableswitch {
            default,
            low,
            high,
            jump_offsets,
        } && default == d && low == lo && high == hi,
        t.frames.last().stack.len() >= 1,
        t.frames.last().stack.last() == Value::Int(idx),
        idx < lo || idx > hi,
    ensures
        spec_step(cs, heap, t, tid) == spec_branch_step(
            cs,
            heap,
            t,
            frame_with_stack(t.frames.last(), t.frames.last().stack.drop_last()),
            code.code.len() as int,
            d as int,
            true,
        ),
{
    reveal(spec_step);
}

/// A frame that cannot catch a fault — no resolvable code, no room on
/// its operand stack, or no matching exception-table entry — passes the
/// fault to its caller: unwinding continues at the frame below, from the
/// stored return position.
pub proof fn lemma_unwind_propagates(cs: Seq<ClassModel>, t: ThreadModel, fault: Seq<u8>, obj: usize)
    requires
        t.frames.len() > 0,
        t.frames.last().return_pc is Some,
        match spec_code_at(cs, t.pc) {
            Some(code) => t.frames.last().max_stack < 1 || spec_find_handler(
                code.exception_table,
                cs[t.pc.class as int].constant_pool,
                t.pc.instr,
                fault,
                code.code.len() as int,
                0,
            ) is None,
            None => true,
        },
    ensures
        spec_unwind(cs, t, fault, obj) == spec_unwind(
            cs,
            ThreadModel { pc: t.frames.last().return_pc->Some_0, frames: t.frames.drop_last() },
            fault,
            obj,
        ),
{
}

} // verus!
