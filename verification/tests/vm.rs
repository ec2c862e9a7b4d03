use bytevm::class::{Class, FieldIndex, MethodIndex};
use bytevm::code::{decode_code, Instr};
use bytevm::error::Error;
use bytevm::interp::Interp;
use bytevm::thread::StepEvent;
use bytevm::value::Value;

// ---- a small builder for class-file bytes ----

fn u16be(out: &mut Vec<u8>, v: u16) {
    out.extend_from_slice(&v.to_be_bytes());
}

fn u32be(out: &mut Vec<u8>, v: u32) {
    out.extend_from_slice(&v.to_be_bytes());
}

fn utf8_entry(out: &mut Vec<u8>, s: &[u8]) {
    out.push(1);
    u16be(out, s.len() as u16);
    out.extend_from_slice(s);
}

fn class_entry(out: &mut Vec<u8>, name_index: u16) {
    out.push(7);
    u16be(out, name_index);
}

fn name_and_type_entry(out: &mut Vec<u8>, name_index: u16, descriptor_index: u16) {
    out.push(12);
    u16be(out, name_index);
    u16be(out, descriptor_index);
}

fn field_ref_entry(out: &mut Vec<u8>, class_index: u16, nat_index: u16) {
    out.push(9);
    u16be(out, class_index);
    u16be(out, nat_index);
}

fn method_ref_entry(out: &mut Vec<u8>, class_index: u16, nat_index: u16) {
    out.push(10);
    u16be(out, class_index);
    u16be(out, nat_index);
}

struct MethodDef {
    access: u16,
    name_index: u16,
    descriptor_index: u16,
    max_stack: u16,
    max_locals: u16,
    code: Vec<u8>,
    // (start_pc, end_pc, handler_pc, catch_type)
    exceptions: Vec<(u16, u16, u16, u16)>,
}

struct FieldDef {
    access: u16,
    name_index: u16,
    descriptor_index: u16,
}

/// A class "A" extending java/lang/Object with a fixed constant pool:
///  1 "A"  2 Class A  3 "java/lang/Object"  4 Class Object
///  5 "main"  6 "([Ljava/lang/String;)V"  7 "Code"
///  8 "F"  9 "I"  10 NameAndType F:I  11 FieldRef A.F:I
///  12 "f"  13 "()I"  14 NameAndType f:()I  15 MethodRef A.f()I
///  16 "java/lang/ArithmeticException"  17 Class of 16
///  18 "(I)I"  19 NameAndType f:(I)I  20 MethodRef A.f(I)I
fn build_class(magic: u32, minor: u16, major: u16, fields: &[FieldDef], methods: &[MethodDef]) -> Vec<u8> {
    let mut out = Vec::new();
    u32be(&mut out, magic);
    u16be(&mut out, minor);
    u16be(&mut out, major);
    u16be(&mut out, 21); // constant pool count: 20 entries + 1
    utf8_entry(&mut out, b"A");
    class_entry(&mut out, 1);
    utf8_entry(&mut out, b"java/lang/Object");
    class_entry(&mut out, 3);
    utf8_entry(&mut out, b"main");
    utf8_entry(&mut out, b"([Ljava/lang/String;)V");
    utf8_entry(&mut out, b"Code");
    utf8_entry(&mut out, b"F");
    utf8_entry(&mut out, b"I");
    name_and_type_entry(&mut out, 8, 9);
    field_ref_entry(&mut out, 2, 10);
    utf8_entry(&mut out, b"f");
    utf8_entry(&mut out, b"()I");
    name_and_type_entry(&mut out, 12, 13);
    method_ref_entry(&mut out, 2, 14);
    utf8_entry(&mut out, b"java/lang/ArithmeticException");
    class_entry(&mut out, 16);
    utf8_entry(&mut out, b"(I)I");
    name_and_type_entry(&mut out, 12, 18);
    method_ref_entry(&mut out, 2, 19);
    u16be(&mut out, 0x0021); // access flags
    u16be(&mut out, 2); // this class
    u16be(&mut out, 4); // super class
    u16be(&mut out, 0); // interfaces
    u16be(&mut out, fields.len() as u16);
    for f in fields {
        u16be(&mut out, f.access);
        u16be(&mut out, f.name_index);
        u16be(&mut out, f.descriptor_index);
        u16be(&mut out, 0); // field attributes
    }
    u16be(&mut out, methods.len() as u16);
    for m in methods {
        u16be(&mut out, m.access);
        u16be(&mut out, m.name_index);
        u16be(&mut out, m.descriptor_index);
        u16be(&mut out, 1); // one attribute: Code
        u16be(&mut out, 7); // "Code"
        let payload_len = 8 + m.code.len() + 2 + 8 * m.exceptions.len() + 2;
        u32be(&mut out, payload_len as u32);
        u16be(&mut out, m.max_stack);
        u16be(&mut out, m.max_locals);
        u32be(&mut out, m.code.len() as u32);
        out.extend_from_slice(&m.code);
        u16be(&mut out, m.exceptions.len() as u16);
        for e in &m.exceptions {
            u16be(&mut out, e.0);
            u16be(&mut out, e.1);
            u16be(&mut out, e.2);
            u16be(&mut out, e.3);
        }
        u16be(&mut out, 0); // nested attributes
    }
    u16be(&mut out, 0); // class attributes
    out
}

fn main_method(code: Vec<u8>, max_stack: u16, max_locals: u16, exceptions: Vec<(u16, u16, u16, u16)>) -> MethodDef {
    MethodDef { access: 0x0009, name_index: 5, descriptor_index: 6, max_stack, max_locals, code, exceptions }
}

fn f_method(code: Vec<u8>, max_stack: u16, max_locals: u16, exceptions: Vec<(u16, u16, u16, u16)>) -> MethodDef {
    MethodDef { access: 0x0009, name_index: 12, descriptor_index: 13, max_stack, max_locals, code, exceptions }
}

fn simple_class() -> Vec<u8> {
    build_class(0xCAFEBABE, 0, 64, &[], &[main_method(vec![0x03, 0x1a, 0x60, 0xac], 2, 1, vec![])])
}

// ---- parser ----

#[test]
fn parse_accepts_valid_class() {
    let bytes = simple_class();
    let c = Class::parse(&bytes).expect("valid class must parse");
    assert_eq!(c.name, b"A".to_vec());
    assert_eq!(c.superclass_name, b"java/lang/Object".to_vec());
    assert_eq!(c.static_methods.len(), 1);
    assert_eq!(c.static_methods[0].name, b"main".to_vec());
    assert!(c.static_methods[0].code.is_some());
}

#[test]
fn parse_rejects_bad_magic() {
    let bytes = build_class(0xDEADBEEF, 0, 64, &[], &[main_method(vec![0xb1], 1, 1, vec![])]);
    assert!(matches!(Class::parse(&bytes), Err(Error::InvalidClass)));
}

#[test]
fn parse_rejects_unsupported_version() {
    let bytes = build_class(0xCAFEBABE, 0, 63, &[], &[main_method(vec![0xb1], 1, 1, vec![])]);
    assert!(matches!(Class::parse(&bytes), Err(Error::InvalidClass)));
    let bytes = build_class(0xCAFEBABE, 3, 64, &[], &[main_method(vec![0xb1], 1, 1, vec![])]);
    assert!(matches!(Class::parse(&bytes), Err(Error::InvalidClass)));
}

#[test]
fn parse_is_deterministic() {
    let bytes = simple_class();
    let c1 = Class::parse(&bytes).unwrap();
    let c2 = Class::parse(&bytes).unwrap();
    assert_eq!(c1.name, c2.name);
    assert_eq!(c1.superclass_name, c2.superclass_name);
    assert_eq!(c1.static_methods.len(), c2.static_methods.len());
    for (m1, m2) in c1.static_methods.iter().zip(c2.static_methods.iter()) {
        assert_eq!(m1.name, m2.name);
        assert_eq!(m1.descriptor, m2.descriptor);
        assert_eq!(m1.access, m2.access);
    }
    assert_eq!(c1.fields.len(), c2.fields.len());
    assert_eq!(c1.static_fields.len(), c2.static_fields.len());
}

#[test]
fn parse_rejects_truncated_file() {
    let mut bytes = simple_class();
    bytes.truncate(bytes.len() - 3);
    assert!(matches!(Class::parse(&bytes), Err(Error::InvalidClass)));
}

#[test]
fn parse_rejects_invalid_utf8_constant() {
    let mut out = Vec::new();
    u32be(&mut out, 0xCAFEBABE);
    u16be(&mut out, 0);
    u16be(&mut out, 64);
    u16be(&mut out, 2); // one constant
    out.push(1); // Utf8 tag
    u16be(&mut out, 1);
    out.push(0xFF); // not valid UTF-8
    assert!(matches!(Class::parse(&out), Err(Error::InvalidClass)));
}

#[test]
fn field_keeps_its_descriptor() {
    let fields = vec![FieldDef { access: 0x0009, name_index: 8, descriptor_index: 9 }];
    let bytes = build_class(0xCAFEBABE, 0, 64, &fields, &[main_method(vec![0xb1], 1, 1, vec![])]);
    let c = Class::parse(&bytes).unwrap();
    assert_eq!(c.static_fields.len(), 1);
    assert_eq!(c.static_fields[0].name, b"F".to_vec());
    assert_eq!(c.static_fields[0].typ, b"I".to_vec());
    assert_ne!(c.static_fields[0].typ, c.static_fields[0].name);
}

// ---- decoder ----

#[test]
fn decode_basic_sequence() {
    let code = decode_code(&[0x03, 0x1a, 0x60, 0xac]).expect("decodes");
    assert_eq!(code.len(), 4);
    assert_eq!(code[0], Instr::Iconst0);
    assert_eq!(code[1], Instr::Iload0);
    assert_eq!(code[2], Instr::Iadd);
    assert_eq!(code[3], Instr::Ireturn);
}

#[test]
fn decode_rejects_truncated_instruction() {
    assert!(matches!(decode_code(&[0x03, 0x10]), Err(Error::InvalidClass)));
}

#[test]
fn decode_rejects_unknown_opcode() {
    assert!(matches!(decode_code(&[0xcb]), Err(Error::InvalidClass)));
}

#[test]
fn decode_tableswitch_reads_exactly_its_offsets() {
    let mut bytes = vec![0xaa];
    u32be(&mut bytes, 7i32 as u32); // default
    u32be(&mut bytes, 0); // low
    u32be(&mut bytes, 2); // high
    u32be(&mut bytes, 11i32 as u32);
    u32be(&mut bytes, 22i32 as u32);
    u32be(&mut bytes, 33i32 as u32);
    let code = decode_code(&bytes).expect("decodes");
    assert_eq!(code.len(), 1);
    match &code[0] {
        Instr::Tableswitch { default, low, high, jump_offsets } => {
            assert_eq!(*default, 7);
            assert_eq!(*low, 0);
            assert_eq!(*high, 2);
            assert_eq!(jump_offsets.len(), 3);
            assert_eq!(jump_offsets[1], 22);
        },
        other => panic!("wrong instruction: {:?}", other),
    }
}

#[test]
fn decode_wide_overrides_index() {
    // wide prefix, iload with its 8-bit operand, then the 16-bit index
    let code = decode_code(&[0xc4, 0x15, 0x05, 0x01, 0x02]).expect("decodes");
    assert_eq!(code.len(), 1);
    match &code[0] {
        Instr::Wide { instr, index } => {
            assert_eq!(**instr, Instr::Iload(0x05));
            assert_eq!(*index, 0x0102);
        },
        other => panic!("wrong instruction: {:?}", other),
    }
}

// ---- executor ----

fn loaded(bytes: &[u8]) -> Interp {
    let mut interp = Interp::new();
    interp.load_class(bytes).expect("loads");
    interp.new_thread_main(&b"A".to_vec()).expect("main thread starts");
    interp
}

#[test]
fn executes_add_sequence_step_by_step() {
    let mut interp = loaded(&simple_class());
    // preset local slot 0 of the root frame to 5
    interp.threads[0].stack[0].set_local(0, Value::Int(5));
    let r = interp.threads[0].exec_one(0, &mut interp.context).unwrap();
    assert_eq!(r, StepEvent::Continue);
    assert_eq!(interp.threads[0].stack[0].stack, vec![Value::Int(0)]);
    interp.threads[0].exec_one(0, &mut interp.context).unwrap();
    assert_eq!(interp.threads[0].stack[0].stack, vec![Value::Int(0), Value::Int(5)]);
    interp.threads[0].exec_one(0, &mut interp.context).unwrap();
    assert_eq!(interp.threads[0].stack[0].stack, vec![Value::Int(5)]);
    let r = interp.threads[0].exec_one(0, &mut interp.context).unwrap();
    assert_eq!(r, StepEvent::Terminated);
    assert!(interp.threads[0].stack.is_empty());
}

#[test]
fn putstatic_then_getstatic_returns_last_written_value() {
    let fields = vec![FieldDef { access: 0x0009, name_index: 8, descriptor_index: 9 }];
    // iconst_5; putstatic A.F:I; getstatic A.F:I; ireturn
    let code = vec![0x08, 0xb3, 0x00, 0x0b, 0xb2, 0x00, 0x0b, 0xac];
    let bytes = build_class(0xCAFEBABE, 0, 64, &fields, &[main_method(code, 2, 1, vec![])]);
    let mut interp = loaded(&bytes);
    interp.threads[0].exec_one(0, &mut interp.context).unwrap(); // iconst_5
    interp.threads[0].exec_one(0, &mut interp.context).unwrap(); // putstatic
    let v = interp.context.classes[0].static_field_value_name(&b"F".to_vec(), &b"I".to_vec());
    assert_eq!(v, Some(Value::Int(5)));
    interp.threads[0].exec_one(0, &mut interp.context).unwrap(); // getstatic
    assert_eq!(interp.threads[0].stack[0].stack, vec![Value::Int(5)]);
    let r = interp.threads[0].exec_one(0, &mut interp.context).unwrap();
    assert_eq!(r, StepEvent::Terminated);
}

#[test]
fn static_cells_seed_and_read_by_name() {
    let fields = vec![FieldDef { access: 0x0009, name_index: 8, descriptor_index: 9 }];
    let bytes = build_class(0xCAFEBABE, 0, 64, &fields, &[main_method(vec![0xb1], 1, 1, vec![])]);
    let c = Class::parse(&bytes).unwrap();
    // zero-initialized at construction
    assert_eq!(c.static_field_value_name(&b"F".to_vec(), &b"I".to_vec()), Some(Value::Int(0)));
    let mut c = c;
    let ix = c.static_field_index(&b"F".to_vec(), &b"I".to_vec()).unwrap();
    assert!(matches!(ix, FieldIndex::Static(0)));
    assert!(c.set_static_field_value(ix, Value::Int(42)));
    assert_eq!(c.static_field_value(ix), Some(Value::Int(42)));
}

#[test]
fn tableswitch_in_range_and_default() {
    // bipush IDX; tableswitch default=2 low=0 high=2 offsets=[1,1,1]; return; return
    let make = |idx: u8| {
        let mut code = vec![0x10, idx, 0xaa];
        u32be(&mut code, 2); // default offset (switch is at instruction 1)
        u32be(&mut code, 0); // low
        u32be(&mut code, 2); // high
        u32be(&mut code, 1);
        u32be(&mut code, 1);
        u32be(&mut code, 1);
        code.push(0xb1);
        code.push(0xb1);
        build_class(0xCAFEBABE, 0, 64, &[], &[main_method(code, 1, 1, vec![])])
    };
    // index 1 lies in [0, 2]: offset table entry 1 -> instruction 2
    let mut interp = loaded(&make(1));
    interp.threads[0].exec_one(0, &mut interp.context).unwrap();
    interp.threads[0].exec_one(0, &mut interp.context).unwrap();
    assert_eq!(interp.threads[0].pc.pc(), 2);
    // index 5 lies outside [0, 2]: default offset -> instruction 3
    let mut interp = loaded(&make(5));
    interp.threads[0].exec_one(0, &mut interp.context).unwrap();
    interp.threads[0].exec_one(0, &mut interp.context).unwrap();
    assert_eq!(interp.threads[0].pc.pc(), 3);
}

#[test]
fn arithmetic_fault_caught_in_same_frame() {
    // main: invokestatic A.f; pop; return
    let main_code = vec![0xb8, 0x00, 0x0f, 0x57, 0xb1];
    // f: iconst_1; iconst_0; idiv; iconst_5; ireturn — table catches the idiv
    let f_code = vec![0x04, 0x03, 0x6c, 0x08, 0xac];
    let bytes = build_class(
        0xCAFEBABE,
        0,
        64,
        &[],
        &[main_method(main_code, 2, 1, vec![]), f_method(f_code, 2, 1, vec![(2, 3, 3, 17)])],
    );
    let mut interp = loaded(&bytes);
    interp.threads[0].exec_one(0, &mut interp.context).unwrap(); // invokestatic
    assert_eq!(interp.threads[0].stack.len(), 2);
    interp.threads[0].exec_one(0, &mut interp.context).unwrap(); // iconst_1
    interp.threads[0].exec_one(0, &mut interp.context).unwrap(); // iconst_0
    let r = interp.threads[0].exec_one(0, &mut interp.context).unwrap(); // idiv faults
    assert_eq!(r, StepEvent::Continue);
    // control moved to the handler, the stack holds only the thrown value
    assert_eq!(interp.threads[0].pc.pc(), 3);
    assert_eq!(interp.threads[0].stack[1].stack, vec![Value::Reference(0)]);
    assert_eq!(interp.context.heap[0].class_name, b"java/lang/ArithmeticException".to_vec());
    interp.threads[0].exec_one(0, &mut interp.context).unwrap(); // iconst_5
    interp.threads[0].exec_one(0, &mut interp.context).unwrap(); // ireturn
    assert_eq!(interp.threads[0].stack.len(), 1);
    assert_eq!(interp.threads[0].stack[0].stack, vec![Value::Int(5)]);
}

#[test]
fn arithmetic_fault_propagates_to_caller() {
    // main: invokestatic A.f; return; return — its table catches over the call site
    let main_code = vec![0xb8, 0x00, 0x0f, 0xb1, 0xb1];
    // f: iconst_1; iconst_0; idiv; ireturn — no table
    let f_code = vec![0x04, 0x03, 0x6c, 0xac];
    let bytes = build_class(
        0xCAFEBABE,
        0,
        64,
        &[],
        &[main_method(main_code, 2, 1, vec![(0, 1, 2, 0)]), f_method(f_code, 2, 1, vec![])],
    );
    let mut interp = loaded(&bytes);
    interp.threads[0].exec_one(0, &mut interp.context).unwrap(); // invokestatic
    interp.threads[0].exec_one(0, &mut interp.context).unwrap(); // iconst_1
    interp.threads[0].exec_one(0, &mut interp.context).unwrap(); // iconst_0
    let r = interp.threads[0].exec_one(0, &mut interp.context).unwrap(); // idiv faults
    assert_eq!(r, StepEvent::Continue);
    // the callee frame is gone; the caller resumed at its handler
    assert_eq!(interp.threads[0].stack.len(), 1);
    assert_eq!(interp.threads[0].pc.pc(), 2);
    assert_eq!(interp.threads[0].stack[0].stack, vec![Value::Reference(0)]);
    let r = interp.threads[0].exec_one(0, &mut interp.context).unwrap(); // return
    assert_eq!(r, StepEvent::Terminated);
}

#[test]
fn unhandled_fault_kills_the_thread() {
    // main: iconst_1; iconst_0; idiv; return — no table anywhere
    let bytes = build_class(
        0xCAFEBABE,
        0,
        64,
        &[],
        &[main_method(vec![0x04, 0x03, 0x6c, 0xb1], 2, 1, vec![])],
    );
    let mut interp = loaded(&bytes);
    interp.threads[0].exec_one(0, &mut interp.context).unwrap();
    interp.threads[0].exec_one(0, &mut interp.context).unwrap();
    let r = interp.threads[0].exec_one(0, &mut interp.context).unwrap();
    assert_eq!(r, StepEvent::Died);
    assert!(interp.threads[0].stack.is_empty());
    assert!(!interp.threads[0].is_running());
}

#[test]
fn scheduler_runs_to_completion() {
    let mut interp = loaded(&simple_class());
    let done = interp.run(100).expect("run succeeds");
    assert!(done);
    assert!(!interp.threads[0].is_running());
}

#[test]
fn wrapping_arithmetic_and_division_edge() {
    // bipush 1; bipush -1 as sipush? use iconst_m1; idiv of MIN/-1 needs constants
    // wide coverage through the engine: sipush 300 * sipush 300 wraps nowhere;
    // here: iconst_m1; iconst_m1; idiv -> 1
    let bytes = build_class(
        0xCAFEBABE,
        0,
        64,
        &[],
        &[main_method(vec![0x02, 0x02, 0x6c, 0xac], 2, 1, vec![])],
    );
    let mut interp = loaded(&bytes);
    interp.threads[0].exec_one(0, &mut interp.context).unwrap();
    interp.threads[0].exec_one(0, &mut interp.context).unwrap();
    interp.threads[0].exec_one(0, &mut interp.context).unwrap();
    assert_eq!(interp.threads[0].stack[0].stack, vec![Value::Int(1)]);
}

// ---- thread creation errors ----

#[test]
fn class_not_found_reported() {
    let mut interp = Interp::new();
    assert!(matches!(interp.new_thread_main(&b"A".to_vec()), Err(Error::ClassNotFound)));
    assert!(matches!(interp.new_thread_runnable(&b"A".to_vec()), Err(Error::ClassNotFound)));
}

#[test]
fn class_not_main_and_not_runnable_reported() {
    // the class's only method is f, neither main(String[]) nor run()
    let bytes = build_class(0xCAFEBABE, 0, 64, &[], &[f_method(vec![0x03, 0xac], 1, 1, vec![])]);
    let mut interp = Interp::new();
    interp.load_class(&bytes).unwrap();
    assert!(matches!(interp.new_thread_main(&b"A".to_vec()), Err(Error::ClassNotMain)));
    assert!(matches!(interp.new_thread_runnable(&b"A".to_vec()), Err(Error::ClassNotRunnable)));
}

// ---- monitors ----

#[test]
fn monitor_is_reentrant_per_thread() {
    let mut c = Class::parse(&simple_class()).unwrap();
    assert!(c.monitor_enter(1));
    assert!(!c.monitor_enter(2));
    assert!(c.monitor_enter(1));
    assert!(c.monitor_exit(1));
    assert!(!c.monitor_exit(2));
    assert!(c.monitor_exit(1));
    assert!(!c.monitor_exit(1));
    assert!(c.monitor_enter(2));
    assert!(c.monitor_exit(2));
}

#[test]
fn wait_and_notify_hand_over_one_thread() {
    let mut c = Class::parse(&simple_class()).unwrap();
    assert_eq!(c.notify(), None);
    c.wait(7);
    c.wait(9);
    assert_eq!(c.notify(), Some(7));
    assert_eq!(c.notify(), Some(9));
    assert_eq!(c.notify(), None);
}

// ---- method lookup ----

#[test]
fn lookup_is_by_name_and_descriptor() {
    let c = Class::parse(&simple_class()).unwrap();
    let ix = c.static_method_index(&b"main".to_vec(), &b"([Ljava/lang/String;)V".to_vec());
    assert!(matches!(ix, Some(MethodIndex::Static(0))));
    assert_eq!(c.static_method_index(&b"main".to_vec(), &b"()V".to_vec()), None);
    assert_eq!(c.method_index(&b"main".to_vec(), &b"([Ljava/lang/String;)V".to_vec()), None);
}


#[test]
fn reloading_a_name_shadows_the_old_class() {
    // the first registration of "A" has no main; the second has one
    let without_main = build_class(0xCAFEBABE, 0, 64, &[], &[f_method(vec![0x03, 0xac], 1, 1, vec![])]);
    let with_main = build_class(0xCAFEBABE, 0, 64, &[], &[main_method(vec![0xb1], 1, 1, vec![])]);
    let mut interp = Interp::new();
    interp.load_class(&without_main).unwrap();
    assert!(matches!(interp.new_thread_main(&b"A".to_vec()), Err(Error::ClassNotMain)));
    interp.load_class(&with_main).unwrap();
    assert_eq!(interp.context.class(&b"A".to_vec()), Some(1));
    interp.new_thread_main(&b"A".to_vec()).expect("the latest registration answers");
}

#[test]
fn new_getfield_putfield_round_trip() {
    // an instance field F:I on A
    let fields = vec![FieldDef { access: 0x0001, name_index: 8, descriptor_index: 9 }];
    // main: new A; dup; iconst_5; putfield A.F:I; getfield A.F:I; ireturn
    let code = vec![0xbb, 0x00, 0x02, 0x59, 0x08, 0xb5, 0x00, 0x0b, 0xb4, 0x00, 0x0b, 0xac];
    let bytes = build_class(0xCAFEBABE, 0, 64, &fields, &[main_method(code, 3, 1, vec![])]);
    let mut interp = loaded(&bytes);
    interp.threads[0].exec_one(0, &mut interp.context).unwrap(); // new
    assert_eq!(interp.context.heap.len(), 1);
    assert_eq!(interp.context.heap[0].class_name, b"A".to_vec());
    assert_eq!(interp.context.heap[0].fields, vec![Value::Int(0)]);
    interp.threads[0].exec_one(0, &mut interp.context).unwrap(); // dup
    interp.threads[0].exec_one(0, &mut interp.context).unwrap(); // iconst_5
    interp.threads[0].exec_one(0, &mut interp.context).unwrap(); // putfield
    assert_eq!(interp.context.heap[0].fields, vec![Value::Int(5)]);
    interp.threads[0].exec_one(0, &mut interp.context).unwrap(); // getfield
    assert_eq!(interp.threads[0].stack[0].stack, vec![Value::Int(5)]);
    let r = interp.threads[0].exec_one(0, &mut interp.context).unwrap();
    assert_eq!(r, StepEvent::Terminated);
}

#[test]
fn invokevirtual_passes_receiver_and_arguments() {
    // an instance method g(I)I on A returning its argument: iload_1; ireturn
    let g = MethodDef {
        access: 0x0001,
        name_index: 12,
        descriptor_index: 18,
        max_stack: 1,
        max_locals: 2,
        code: vec![0x1b, 0xac],
        exceptions: vec![],
    };
    // main: new A; bipush 7; invokevirtual A.f(I)I; ireturn
    let main_code = vec![0xbb, 0x00, 0x02, 0x10, 0x07, 0xb6, 0x00, 0x14, 0xac];
    let bytes = build_class(0xCAFEBABE, 0, 64, &[], &[main_method(main_code, 2, 1, vec![]), g]);
    let mut interp = loaded(&bytes);
    interp.threads[0].exec_one(0, &mut interp.context).unwrap(); // new
    interp.threads[0].exec_one(0, &mut interp.context).unwrap(); // bipush
    interp.threads[0].exec_one(0, &mut interp.context).unwrap(); // invokevirtual
    assert_eq!(interp.threads[0].stack.len(), 2);
    assert_eq!(interp.threads[0].stack[1].locals[0], Value::Reference(0));
    assert_eq!(interp.threads[0].stack[1].locals[1], Value::Int(7));
    assert!(interp.threads[0].stack[1].stack.is_empty());
    interp.threads[0].exec_one(0, &mut interp.context).unwrap(); // iload_1
    interp.threads[0].exec_one(0, &mut interp.context).unwrap(); // ireturn
    assert_eq!(interp.threads[0].stack.len(), 1);
    assert_eq!(interp.threads[0].stack[0].stack, vec![Value::Int(7)]);
    let r = interp.threads[0].exec_one(0, &mut interp.context).unwrap();
    assert_eq!(r, StepEvent::Terminated);
}

#[test]
fn monitor_opcodes_block_other_threads() {
    // main: new A; dup; dup; dup; monitorenter; monitorenter; monitorexit;
    // monitorexit; return
    let code = vec![0xbb, 0x00, 0x02, 0x59, 0x59, 0x59, 0xc2, 0xc2, 0xc3, 0xc3, 0xb1];
    let bytes = build_class(0xCAFEBABE, 0, 64, &[], &[main_method(code, 4, 1, vec![])]);
    let mut interp = loaded(&bytes);
    for _ in 0..5 {
        interp.threads[0].exec_one(0, &mut interp.context).unwrap();
    }
    // thread 0 holds the monitor; another thread blocks on it
    assert_eq!(interp.context.classes[0].monitor.owner, Some(0));
    assert_eq!(interp.context.classes[0].monitor.depth, 1);
    let mut other = bytevm::thread::Thread::new(
        0,
        &interp.context.classes[0],
        MethodIndex::Static(0),
    )
    .unwrap();
    other.pc.instr = 5; // at the second monitorenter
    other.stack[0].stack.push(Value::Reference(0));
    let r = other.exec_one(9, &mut interp.context).unwrap();
    assert_eq!(r, StepEvent::Blocked);
    // reentry, then two exits release it
    interp.threads[0].exec_one(0, &mut interp.context).unwrap();
    assert_eq!(interp.context.classes[0].monitor.depth, 2);
    interp.threads[0].exec_one(0, &mut interp.context).unwrap();
    interp.threads[0].exec_one(0, &mut interp.context).unwrap();
    assert_eq!(interp.context.classes[0].monitor.owner, None);
    let r = interp.threads[0].exec_one(0, &mut interp.context).unwrap();
    assert_eq!(r, StepEvent::Terminated);
}

#[test]
fn superclass_resolves_lazily_by_name() {
    let mut interp = Interp::new();
    interp.load_class(&simple_class()).unwrap();
    // java/lang/Object is not loaded: recoverable, not structural
    assert_eq!(interp.context.classes[0].superclass(&interp.context), None);
}


#[test]
fn invokespecial_dispatches_on_the_named_class() {
    // an instance method f(I)I returning its argument
    let g = MethodDef {
        access: 0x0001,
        name_index: 12,
        descriptor_index: 18,
        max_stack: 1,
        max_locals: 2,
        code: vec![0x1b, 0xac],
        exceptions: vec![],
    };
    // main: new A; bipush 9; invokespecial A.f(I)I; ireturn
    let main_code = vec![0xbb, 0x00, 0x02, 0x10, 0x09, 0xb7, 0x00, 0x14, 0xac];
    let bytes = build_class(0xCAFEBABE, 0, 64, &[], &[main_method(main_code, 2, 1, vec![]), g]);
    let mut interp = loaded(&bytes);
    let mut done = false;
    while !done {
        done = interp.threads[0].exec_one(0, &mut interp.context).unwrap() == StepEvent::Terminated;
    }
    assert!(interp.threads[0].stack.is_empty());
    assert_eq!(interp.context.heap.len(), 1);
}
