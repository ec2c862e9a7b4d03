//! The instruction set and the bytecode decoder.
//!
//! A method's code is a byte stream in which each opcode byte selects a
//! fixed, opcode-specific operand shape; the two switch forms carry
//! variable-length tables, and the wide prefix re-decodes the following
//! instruction with a 16-bit local-variable index. Decoding terminates
//! precisely when the buffer is empty; a truncated final instruction and
//! an unknown opcode byte are both decode errors.

use vstd::prelude::*;
use crate::class::{Attribute, AttributeModel, attrs_model, parse_attributes,
    spec_parse_attribute_list};
use crate::constant::{Constant, ConstantModel, pool_model};
use crate::error::Error;
use crate::reader::{be16, be32, has_bytes, read_u8, read_i8, read_u16, read_i16, read_i32,
    read_u32, read_bytes};

verus! {

/// One decoded instruction. Each variant carries exactly the operands its
/// opcode encodes: 8-bit local indices, signed immediates, 16-bit
/// constant-pool indices, relative branch offsets, or a branch table.
#[derive(Debug, PartialEq)]
pub enum Instr {
    Aaload,
    Aastore,
    AconstNull,
    Aload(u8),
    Aload0,
    Aload1,
    Aload2,
    Aload3,
    Anewarray(u16),
    Areturn,
    Arraylength,
    Astore(u8),
    Astore0,
    Astore1,
    Astore2,
    Astore3,
    Athrow,
    Baload,
    Bastore,
    Bipush(i8),
    Caload,
    Castore,
    Checkcast(u16),
    D2f,
    D2i,
    D2l,
    Dadd,
    Daload,
    Dastore,
    Dcmpg,
    Dcmpl,
    Dconst0,
    Dconst1,
    Ddiv,
    Dload(u8),
    Dload0,
    Dload1,
    Dload2,
    Dload3,
    Dmul,
    Dneg,
    Drem,
    Dreturn,
    Dstore(u8),
    Dstore0,
    Dstore1,
    Dstore2,
    Dstore3,
    Dsub,
    Dup,
    DupX1,
    DupX2,
    Dup2,
    Dup2X1,
    Dup2X2,
    F2d,
    F2i,
    F2l,
    Fadd,
    Faload,
    Fastore,
    Fcmpg,
    Fcmpl,
    Fconst0,
    Fconst1,
    Fconst2,
    Fdiv,
    Fload(u8),
    Fload0,
    Fload1,
    Fload2,
    Fload3,
    Fmul,
    Fneg,
    Frem,
    Freturn,
    Fstore(u8),
    Fstore0,
    Fstore1,
    Fstore2,
    Fstore3,
    Fsub,
    Getfield(u16),
    Getstatic(u16),
    Goto(i16),
    GotoW(i32),
    I2b,
    I2c,
    I2d,
    I2f,
    I2l,
    I2s,
    Iadd,
    Iaload,
    Iand,
    Iastore,
    IconstM1,
    Iconst0,
    Iconst1,
    Iconst2,
    Iconst3,
    Iconst4,
    Iconst5,
    Idiv,
    IfAcmpeq(i16),
    IfAcmpne(i16),
    IfIcmpeq(i16),
    IfIcmpne(i16),
    IfIcmplt(i16),
    IfIcmpge(i16),
    IfIcmpgt(i16),
    IfIcmple(i16),
    Ifeq(i16),
    Ifne(i16),
    Iflt(i16),
    Ifge(i16),
    Ifgt(i16),
    Ifle(i16),
    Ifnonnull(i16),
    Ifnull(i16),
    Iinc(u8, i8),
    Iload(u8),
    Iload0,
    Iload1,
    Iload2,
    Iload3,
    Imul,
    Ineg,
    Instanceof(u16),
    Invokedynamic(u16),
    Invokeinterface(u16, u8),
    Invokespecial(u16),
    Invokestatic(u16),
    Invokevirtual(u16),
    Ior,
    Irem,
    Ireturn,
    Ishl,
    Ishr,
    Istore(u8),
    Istore0,
    Istore1,
    Istore2,
    Istore3,
    Isub,
    Iushr,
    Ixor,
    Jsr(i16),
    JsrW(i32),
    L2d,
    L2f,
    L2i,
    Ladd,
    Laload,
    Land,
    Lastore,
    Lcmp,
    Lconst0,
    Lconst1,
    Ldc(u8),
    LdcW(u16),
    Ldc2W(u16),
    Ldiv,
    Lload(u8),
    Lload0,
    Lload1,
    Lload2,
    Lload3,
    Lmul,
    Lneg,
    Lookupswitch {
        default: i32,
        npairs: u32,
        match_offsets: Vec<(i32, i32)>,
    },
    Lor,
    Lrem,
    Lreturn,
    Lshl,
    Lshr,
    Lstore(u8),
    Lstore0,
    Lstore1,
    Lstore2,
    Lstore3,
    Lsub,
    Lushr,
    Lxor,
    Monitorenter,
    Monitorexit,
    Multianewarray(u16, u8),
    New(u16),
    Newarray(u8),
    Nop,
    Pop,
    Pop2,
    Putfield(u16),
    Putstatic(u16),
    Ret(u8),
    Return,
    Saload,
    Sastore,
    Sipush(i16),
    Swap,
    Tableswitch {
        default: i32,
        low: i32,
        high: i32,
        jump_offsets: Vec<i32>,
    },
    Wide {
        instr: Box<Instr>,
        index: u16,
    },
}

/// The `n` signed 32-bit big-endian values starting at `pos`.
pub open spec fn be_i32_seq(s: Seq<u8>, pos: int, n: nat) -> Seq<i32> {
    Seq::new(n, |k: int| be32(s, pos + 4 * k) as i32)
}

/// The `n` pairs of signed 32-bit big-endian values starting at `pos`.
pub open spec fn be_pair_seq(s: Seq<u8>, pos: int, n: nat) -> Seq<(i32, i32)> {
    Seq::new(n, |k: int| (be32(s, pos + 8 * k) as i32, be32(s, pos + 8 * k + 4) as i32))
}

/// The decode relation: instruction `r` is encoded at `pos` and ends at
/// `end` (exclusive). Exactly one instruction satisfies it per position.
#[verifier::opaque]
pub open spec fn instr_decoded(s: Seq<u8>, pos: int, r: Instr, end: int) -> bool
    decreases r,
{
    pos + 1 <= s.len() && {
        let op = s[pos];
        if op == 0x00 {
            end == pos + 1 && r == Instr::Nop
        } else if op == 0x01 {
            end == pos + 1 && r == Instr::AconstNull
        } else if op == 0x02 {
            end == pos + 1 && r == Instr::IconstM1
        } else if op == 0x03 {
            end == pos + 1 && r == Instr::Iconst0
        } else if op == 0x04 {
            end == pos + 1 && r == Instr::Iconst1
        } else if op == 0x05 {
            end == pos + 1 && r == Instr::Iconst2
        } else if op == 0x06 {
            end == pos + 1 && r == Instr::Iconst3
        } else if op == 0x07 {
            end == pos + 1 && r == Instr::Iconst4
        } else if op == 0x08 {
            end == pos + 1 && r == Instr::Iconst5
        } else if op == 0x09 {
            end == pos + 1 && r == Instr::Lconst0
        } else if op == 0x0a {
            end == pos + 1 && r == Instr::Lconst1
        } else if op == 0x0b {
            end == pos + 1 && r == Instr::Fconst0
        } else if op == 0x0c {
            end == pos + 1 && r == Instr::Fconst1
        } else if op == 0x0d {
            end == pos + 1 && r == Instr::Fconst2
        } else if op == 0x0e {
            end == pos + 1 && r == Instr::Dconst0
        } else if op == 0x0f {
            end == pos + 1 && r == Instr::Dconst1
        } else if op == 0x10 {
            pos + 2 <= s.len() && end == pos + 2 && r == Instr::Bipush(s[pos + 1] as i8)
        } else if op == 0x11 {
            pos + 3 <= s.len() && end == pos + 3 && r == Instr::Sipush(be16(s, pos + 1) as i16)
        } else if op == 0x12 {
            pos + 2 <= s.len() && end == pos + 2 && r == Instr::Ldc(s[pos + 1])
        } else if op == 0x13 {
            pos + 3 <= s.len() && end == pos + 3 && r == Instr::LdcW(be16(s, pos + 1))
        } else if op == 0x14 {
            pos + 3 <= s.len() && end == pos + 3 && r == Instr::Ldc2W(be16(s, pos + 1))
        } else if op == 0x15 {
            pos + 2 <= s.len() && end == pos + 2 && r == Instr::Iload(s[pos + 1])
        } else if op == 0x16 {
            pos + 2 <= s.len() && end == pos + 2 && r == Instr::Lload(s[pos + 1])
        } else if op == 0x17 {
            pos + 2 <= s.len() && end == pos + 2 && r == Instr::Fload(s[pos + 1])
        } else if op == 0x18 {
            pos + 2 <= s.len() && end == pos + 2 && r == Instr::Dload(s[pos + 1])
        } else if op == 0x19 {
            pos + 2 <= s.len() && end == pos + 2 && r == Instr::Aload(s[pos + 1])
        } else if op == 0x1a {
            end == pos + 1 && r == Instr::Iload0
        } else if op == 0x1b {
            end == pos + 1 && r == Instr::Iload1
        } else if op == 0x1c {
            end == pos + 1 && r == Instr::Iload2
        } else if op == 0x1d {
            end == pos + 1 && r == Instr::Iload3
        } else if op == 0x1e {
            end == pos + 1 && r == Instr::Lload0
        } else if op == 0x1f {
            end == pos + 1 && r == Instr::Lload1
        } else if op == 0x20 {
            end == pos + 1 && r == Instr::Lload2
        } else if op == 0x21 {
            end == pos + 1 && r == Instr::Lload3
        } else if op == 0x22 {
            end == pos + 1 && r == Instr::Fload0
        } else if op == 0x23 {
            end == pos + 1 && r == Instr::Fload1
        } else if op == 0x24 {
            end == pos + 1 && r == Instr::Fload2
        } else if op == 0x25 {
            end == pos + 1 && r == Instr::Fload3
        } else if op == 0x26 {
            end == pos + 1 && r == Instr::Dload0
        } else if op == 0x27 {
            end == pos + 1 && r == Instr::Dload1
        } else if op == 0x28 {
            end == pos + 1 && r == Instr::Dload2
        } else if op == 0x29 {
            end == pos + 1 && r == Instr::Dload3
        } else if op == 0x2a {
            end == pos + 1 && r == Instr::Aload0
        } else if op == 0x2b {
            end == pos + 1 && r == Instr::Aload1
        } else if op == 0x2c {
            end == pos + 1 && r == Instr::Aload2
        } else if op == 0x2d {
            end == pos + 1 && r == Instr::Aload3
        } else if op == 0x2e {
            end == pos + 1 && r == Instr::Iaload
        } else if op == 0x2f {
            end == pos + 1 && r == Instr::Laload
        } else if op == 0x30 {
            end == pos + 1 && r == Instr::Faload
        } else if op == 0x31 {
            end == pos + 1 && r == Instr::Daload
        } else if op == 0x32 {
            end == pos + 1 && r == Instr::Aaload
        } else if op == 0x33 {
            end == pos + 1 && r == Instr::Baload
        } else if op == 0x34 {
            end == pos + 1 && r == Instr::Caload
        } else if op == 0x35 {
            end == pos + 1 && r == Instr::Saload
        } else if op == 0x36 {
            pos + 2 <= s.len() && end == pos + 2 && r == Instr::Istore(s[pos + 1])
        } else if op == 0x37 {
            pos + 2 <= s.len() && end == pos + 2 && r == Instr::Lstore(s[pos + 1])
        } else if op == 0x38 {
            pos + 2 <= s.len() && end == pos + 2 && r == Instr::Fstore(s[pos + 1])
        } else if op == 0x39 {
            pos + 2 <= s.len() && end == pos + 2 && r == Instr::Dstore(s[pos + 1])
        } else if op == 0x3a {
            pos + 2 <= s.len() && end == pos + 2 && r == Instr::Astore(s[pos + 1])
        } else if op == 0x3b {
            end == pos + 1 && r == Instr::Istore0
        } else if op == 0x3c {
            end == pos + 1 && r == Instr::Istore1
        } else if op == 0x3d {
            end == pos + 1 && r == Instr::Istore2
        } else if op == 0x3e {
            end == pos + 1 && r == Instr::Istore3
        } else if op == 0x3f {
            end == pos + 1 && r == Instr::Lstore0
        } else if op == 0x40 {
            end == pos + 1 && r == Instr::Lstore1
        } else if op == 0x41 {
            end == pos + 1 && r == Instr::Lstore2
        } else if op == 0x42 {
            end == pos + 1 && r == Instr::Lstore3
        } else if op == 0x43 {
            end == pos + 1 && r == Instr::Fstore0
        } else if op == 0x44 {
            end == pos + 1 && r == Instr::Fstore1
        } else if op == 0x45 {
            end == pos + 1 && r == Instr::Fstore2
        } else if op == 0x46 {
            end == pos + 1 && r == Instr::Fstore3
        } else if op == 0x47 {
            end == pos + 1 && r == Instr::Dstore0
        } else if op == 0x48 {
            end == pos + 1 && r == Instr::Dstore1
        } else if op == 0x49 {
            end == pos + 1 && r == Instr::Dstore2
        } else if op == 0x4a {
            end == pos + 1 && r == Instr::Dstore3
        } else if op == 0x4b {
            end == pos + 1 && r == Instr::Astore0
        } else if op == 0x4c {
            end == pos + 1 && r == Instr::Astore1
        } else if op == 0x4d {
            end == pos + 1 && r == Instr::Astore2
        } else if op == 0x4e {
            end == pos + 1 && r == Instr::Astore3
        } else if op == 0x4f {
            end == pos + 1 && r == Instr::Iastore
        } else if op == 0x50 {
            end == pos + 1 && r == Instr::Lastore
        } else if op == 0x51 {
            end == pos + 1 && r == Instr::Fastore
        } else if op == 0x52 {
            end == pos + 1 && r == Instr::Dastore
        } else if op == 0x53 {
            end == pos + 1 && r == Instr::Aastore
        } else if op == 0x54 {
            end == pos + 1 && r == Instr::Bastore
        } else if op == 0x55 {
            end == pos + 1 && r == Instr::Castore
        } else if op == 0x56 {
            end == pos + 1 && r == Instr::Sastore
        } else if op == 0x57 {
            end == pos + 1 && r == Instr::Pop
        } else if op == 0x58 {
            end == pos + 1 && r == Instr::Pop2
        } else if op == 0x59 {
            end == pos + 1 && r == Instr::Dup
        } else if op == 0x5a {
            end == pos + 1 && r == Instr::DupX1
        } else if op == 0x5b {
            end == pos + 1 && r == Instr::DupX2
        } else if op == 0x5c {
            end == pos + 1 && r == Instr::Dup2
        } else if op == 0x5d {
            end == pos + 1 && r == Instr::Dup2X1
        } else if op == 0x5e {
            end == pos + 1 && r == Instr::Dup2X2
        } else if op == 0x5f {
            end == pos + 1 && r == Instr::Swap
        } else if op == 0x60 {
            end == pos + 1 && r == Instr::Iadd
        } else if op == 0x61 {
            end == pos + 1 && r == Instr::Ladd
        } else if op == 0x62 {
            end == pos + 1 && r == Instr::Fadd
        } else if op == 0x63 {
            end == pos + 1 && r == Instr::Dadd
        } else if op == 0x64 {
            end == pos + 1 && r == Instr::Isub
        } else if op == 0x65 {
            end == pos + 1 && r == Instr::Lsub
        } else if op == 0x66 {
            end == pos + 1 && r == Instr::Fsub
        } else if op == 0x67 {
            end == pos + 1 && r == Instr::Dsub
        } else if op == 0x68 {
            end == pos + 1 && r == Instr::Imul
        } else if op == 0x69 {
            end == pos + 1 && r == Instr::Lmul
        } else if op == 0x6a {
            end == pos + 1 && r == Instr::Fmul
        } else if op == 0x6b {
            end == pos + 1 && r == Instr::Dmul
        } else if op == 0x6c {
            end == pos + 1 && r == Instr::Idiv
        } else if op == 0x6d {
            end == pos + 1 && r == Instr::Ldiv
        } else if op == 0x6e {
            end == pos + 1 && r == Instr::Fdiv
        } else if op == 0x6f {
            end == pos + 1 && r == Instr::Ddiv
        } else if op == 0x70 {
            end == pos + 1 && r == Instr::Irem
        } else if op == 0x71 {
            end == pos + 1 && r == Instr::Lrem
        } else if op == 0x72 {
            end == pos + 1 && r == Instr::Frem
        } else if op == 0x73 {
            end == pos + 1 && r == Instr::Drem
        } else if op == 0x74 {
            end == pos + 1 && r == Instr::Ineg
        } else if op == 0x75 {
            end == pos + 1 && r == Instr::Lneg
        } else if op == 0x76 {
            end == pos + 1 && r == Instr::Fneg
        } else if op == 0x77 {
            end == pos + 1 && r == Instr::Dneg
        } else if op == 0x78 {
            end == pos + 1 && r == Instr::Ishl
        } else if op == 0x79 {
            end == pos + 1 && r == Instr::Lshl
        } else if op == 0x7a {
            end == pos + 1 && r == Instr::Ishr
        } else if op == 0x7b {
            end == pos + 1 && r == Instr::Lshr
        } else if op == 0x7c {
            end == pos + 1 && r == Instr::Iushr
        } else if op == 0x7d {
            end == pos + 1 && r == Instr::Lushr
        } else if op == 0x7e {
            end == pos + 1 && r == Instr::Iand
        } else if op == 0x7f {
            end == pos + 1 && r == Instr::Land
        } else if op == 0x80 {
            end == pos + 1 && r == Instr::Ior
        } else if op == 0x81 {
            end == pos + 1 && r == Instr::Lor
        } else if op == 0x82 {
            end == pos + 1 && r == Instr::Ixor
        } else if op == 0x83 {
            end == pos + 1 && r == Instr::Lxor
        } else if op == 0x84 {
            pos + 3 <= s.len() && end == pos + 3 && r == Instr::Iinc(s[pos + 1], s[pos + 2] as i8)
        } else if op == 0x85 {
            end == pos + 1 && r == Instr::I2l
        } else if op == 0x86 {
            end == pos + 1 && r == Instr::I2f
        } else if op == 0x87 {
            end == pos + 1 && r == Instr::I2d
        } else if op == 0x88 {
            end == pos + 1 && r == Instr::L2i
        } else if op == 0x89 {
            end == pos + 1 && r == Instr::L2f
        } else if op == 0x8a {
            end == pos + 1 && r == Instr::L2d
        } else if op == 0x8b {
            end == pos + 1 && r == Instr::F2i
        } else if op == 0x8c {
            end == pos + 1 && r == Instr::F2l
        } else if op == 0x8d {
            end == pos + 1 && r == Instr::D2i
        } else if op == 0x8e {
            end == pos + 1 && r == Instr::D2f
        } else if op == 0x8f {
            end == pos + 1 && r == Instr::D2l
        } else if op == 0x91 {
            end == pos + 1 && r == Instr::I2b
        } else if op == 0x92 {
            end == pos + 1 && r == Instr::I2c
        } else if op == 0x93 {
            end == pos + 1 && r == Instr::I2s
        } else if op == 0x94 {
            end == pos + 1 && r == Instr::Lcmp
        } else if op == 0x95 {
            end == pos + 1 && r == Instr::Fcmpl
        } else if op == 0x96 {
            end == pos + 1 && r == Instr::Fcmpg
        } else if op == 0x97 {
            end == pos + 1 && r == Instr::Dcmpl
        } else if op == 0x98 {
            end == pos + 1 && r == Instr::Dcmpg
        } else if op == 0x99 {
            pos + 3 <= s.len() && end == pos + 3 && r == Instr::Ifeq(be16(s, pos + 1) as i16)
        } else if op == 0x9a {
            pos + 3 <= s.len() && end == pos + 3 && r == Instr::Ifne(be16(s, pos + 1) as i16)
        } else if op == 0x9b {
            pos + 3 <= s.len() && end == pos + 3 && r == Instr::Iflt(be16(s, pos + 1) as i16)
        } else if op == 0x9c {
            pos + 3 <= s.len() && end == pos + 3 && r == Instr::Ifge(be16(s, pos + 1) as i16)
        } else if op == 0x9d {
            pos + 3 <= s.len() && end == pos + 3 && r == Instr::Ifgt(be16(s, pos + 1) as i16)
        } else if op == 0x9e {
            pos + 3 <= s.len() && end == pos + 3 && r == Instr::Ifle(be16(s, pos + 1) as i16)
        } else if op == 0x9f {
            pos + 3 <= s.len() && end == pos + 3 && r == Instr::IfIcmpeq(be16(s, pos + 1) as i16)
        } else if op == 0xa0 {
            pos + 3 <= s.len() && end == pos + 3 && r == Instr::IfIcmpne(be16(s, pos + 1) as i16)
        } else if op == 0xa1 {
            pos + 3 <= s.len() && end == pos + 3 && r == Instr::IfIcmplt(be16(s, pos + 1) as i16)
        } else if op == 0xa2 {
            pos + 3 <= s.len() && end == pos + 3 && r == Instr::IfIcmpge(be16(s, pos + 1) as i16)
        } else if op == 0xa3 {
            pos + 3 <= s.len() && end == pos + 3 && r == Instr::IfIcmpgt(be16(s, pos + 1) as i16)
        } else if op == 0xa4 {
            pos + 3 <= s.len() && end == pos + 3 && r == Instr::IfIcmple(be16(s, pos + 1) as i16)
        } else if op == 0xa5 {
            pos + 3 <= s.len() && end == pos + 3 && r == Instr::IfAcmpeq(be16(s, pos + 1) as i16)
        } else if op == 0xa6 {
            pos + 3 <= s.len() && end == pos + 3 && r == Instr::IfAcmpne(be16(s, pos + 1) as i16)
        } else if op == 0xa7 {
            pos + 3 <= s.len() && end == pos + 3 && r == Instr::Goto(be16(s, pos + 1) as i16)
        } else if op == 0xa8 {
            pos + 3 <= s.len() && end == pos + 3 && r == Instr::Jsr(be16(s, pos + 1) as i16)
        } else if op == 0xa9 {
            pos + 2 <= s.len() && end == pos + 2 && r == Instr::Ret(s[pos + 1])
        } else if op == 0xac {
            end == pos + 1 && r == Instr::Ireturn
        } else if op == 0xad {
            end == pos + 1 && r == Instr::Lreturn
        } else if op == 0xae {
            end == pos + 1 && r == Instr::Freturn
        } else if op == 0xaf {
            end == pos + 1 && r == Instr::Dreturn
        } else if op == 0xb0 {
            end == pos + 1 && r == Instr::Areturn
        } else if op == 0xb1 {
            end == pos + 1 && r == Instr::Return
        } else if op == 0xb2 {
            pos + 3 <= s.len() && end == pos + 3 && r == Instr::Getstatic(be16(s, pos + 1))
        } else if op == 0xb3 {
            pos + 3 <= s.len() && end == pos + 3 && r == Instr::Putstatic(be16(s, pos + 1))
        } else if op == 0xb4 {
            pos + 3 <= s.len() && end == pos + 3 && r == Instr::Getfield(be16(s, pos + 1))
        } else if op == 0xb5 {
            pos + 3 <= s.len() && end == pos + 3 && r == Instr::Putfield(be16(s, pos + 1))
        } else if op == 0xb6 {
            pos + 3 <= s.len() && end == pos + 3 && r == Instr::Invokevirtual(be16(s, pos + 1))
        } else if op == 0xb7 {
            pos + 3 <= s.len() && end == pos + 3 && r == Instr::Invokespecial(be16(s, pos + 1))
        } else if op == 0xb8 {
            pos + 3 <= s.len() && end == pos + 3 && r == Instr::Invokestatic(be16(s, pos + 1))
        } else if op == 0xb9 {
            pos + 4 <= s.len() && end == pos + 4 && r == Instr::Invokeinterface(be16(s, pos + 1), s[pos + 3])
        } else if op == 0xba {
            pos + 3 <= s.len() && end == pos + 3 && r == Instr::Invokedynamic(be16(s, pos + 1))
        } else if op == 0xbb {
            pos + 3 <= s.len() && end == pos + 3 && r == Instr::New(be16(s, pos + 1))
        } else if op == 0xbc {
            pos + 2 <= s.len() && end == pos + 2 && r == Instr::Newarray(s[pos + 1])
        } else if op == 0xbd {
            pos + 3 <= s.len() && end == pos + 3 && r == Instr::Anewarray(be16(s, pos + 1))
        } else if op == 0xbe {
            end == pos + 1 && r == Instr::Arraylength
        } else if op == 0xbf {
            end == pos + 1 && r == Instr::Athrow
        } else if op == 0xc0 {
            pos + 3 <= s.len() && end == pos + 3 && r == Instr::Checkcast(be16(s, pos + 1))
        } else if op == 0xc1 {
            pos + 3 <= s.len() && end == pos + 3 && r == Instr::Instanceof(be16(s, pos + 1))
        } else if op == 0xc2 {
            end == pos + 1 && r == Instr::Monitorenter
        } else if op == 0xc3 {
            end == pos + 1 && r == Instr::Monitorexit
        } else if op == 0xc5 {
            pos + 4 <= s.len() && end == pos + 4 && r == Instr::Multianewarray(be16(s, pos + 1), s[pos + 3])
        } else if op == 0xc6 {
            pos + 3 <= s.len() && end == pos + 3 && r == Instr::Ifnull(be16(s, pos + 1) as i16)
        } else if op == 0xc7 {
            pos + 3 <= s.len() && end == pos + 3 && r == Instr::Ifnonnull(be16(s, pos + 1) as i16)
        } else if op == 0xc8 {
            pos + 5 <= s.len() && end == pos + 5 && r == Instr::GotoW(be32(s, pos + 1) as i32)
        } else if op == 0xc9 {
            pos + 5 <= s.len() && end == pos + 5 && r == Instr::JsrW(be32(s, pos + 1) as i32)
        } else if op == 0xaa {
            pos + 13 <= s.len() && {
                let default = be32(s, pos + 1) as i32;
                let low = be32(s, pos + 5) as i32;
                let high = be32(s, pos + 9) as i32;
                let cnt = if low <= high { high - low + 1 } else { 0 };
                pos + 13 + 4 * cnt <= s.len() && end == pos + 13 + 4 * cnt && (r matches
                Instr::Tableswitch { default: d, low: l, high: h, jump_offsets } && d == default
                    && l == low && h == high && jump_offsets@ == be_i32_seq(
                    s,
                    pos + 13,
                    cnt as nat,
                ))
            }
        } else if op == 0xab {
            pos + 9 <= s.len() && {
                let default = be32(s, pos + 1) as i32;
                let npairs = be32(s, pos + 5);
                pos + 9 + 8 * (npairs as int) <= s.len() && end == pos + 9 + 8 * (npairs as int)
                    && (r matches Instr::Lookupswitch { default: d, npairs: n, match_offsets } && d
                    == default && n == npairs && match_offsets@ == be_pair_seq(
                    s,
                    pos + 9,
                    npairs as nat,
                ))
            }
        } else if op == 0xc4 {
            r matches Instr::Wide { instr, index } && end <= s.len() && instr_decoded(
                s,
                pos + 1,
                *instr,
                end - 2,
            ) && index == be16(s, end - 2)
        } else {
            false
        }
    }
}

/// The end position of the instruction encoded at `pos`, or `None` when
/// no instruction decodes there. This pins down [`instr_decoded`]: per
/// position there is at most one decode, and it ends here.
#[verifier::opaque]
pub open spec fn spec_instr_end(s: Seq<u8>, pos: int) -> Option<int>
    decreases s.len() - pos,
{
    if pos + 1 > s.len() {
        None
    } else {
        let op = s[pos];
        if op == 0x00 {
            Some(pos + 1)
        } else if op == 0x01 {
            Some(pos + 1)
        } else if op == 0x02 {
            Some(pos + 1)
        } else if op == 0x03 {
            Some(pos + 1)
        } else if op == 0x04 {
            Some(pos + 1)
        } else if op == 0x05 {
            Some(pos + 1)
        } else if op == 0x06 {
            Some(pos + 1)
        } else if op == 0x07 {
            Some(pos + 1)
        } else if op == 0x08 {
            Some(pos + 1)
        } else if op == 0x09 {
            Some(pos + 1)
        } else if op == 0x0a {
            Some(pos + 1)
        } else if op == 0x0b {
            Some(pos + 1)
        } else if op == 0x0c {
            Some(pos + 1)
        } else if op == 0x0d {
            Some(pos + 1)
        } else if op == 0x0e {
            Some(pos + 1)
        } else if op == 0x0f {
            Some(pos + 1)
        } else if op == 0x10 {
            if pos + 2 <= s.len() {
                Some(pos + 2)
            } else {
                None
            }
        } else if op == 0x11 {
            if pos + 3 <= s.len() {
                Some(pos + 3)
            } else {
                None
            }
        } else if op == 0x12 {
            if pos + 2 <= s.len() {
                Some(pos + 2)
            } else {
                None
            }
        } else if op == 0x13 {
            if pos + 3 <= s.len() {
                Some(pos + 3)
            } else {
                None
            }
        } else if op == 0x14 {
            if pos + 3 <= s.len() {
                Some(pos + 3)
            } else {
                None
            }
        } else if op == 0x15 {
            if pos + 2 <= s.len() {
                Some(pos + 2)
            } else {
                None
            }
        } else if op == 0x16 {
            if pos + 2 <= s.len() {
                Some(pos + 2)
            } else {
                None
            }
        } else if op == 0x17 {
            if pos + 2 <= s.len() {
                Some(pos + 2)
            } else {
                None
            }
        } else if op == 0x18 {
            if pos + 2 <= s.len() {
                Some(pos + 2)
            } else {
                None
            }
        } else if op == 0x19 {
            if pos + 2 <= s.len() {
                Some(pos + 2)
            } else {
                None
            }
        } else if op == 0x1a {
            Some(pos + 1)
        } else if op == 0x1b {
            Some(pos + 1)
        } else if op == 0x1c {
            Some(pos + 1)
        } else if op == 0x1d {
            Some(pos + 1)
        } else if op == 0x1e {
            Some(pos + 1)
        } else if op == 0x1f {
            Some(pos + 1)
        } else if op == 0x20 {
            Some(pos + 1)
        } else if op == 0x21 {
            Some(pos + 1)
        } else if op == 0x22 {
            Some(pos + 1)
        } else if op == 0x23 {
            Some(pos + 1)
        } else if op == 0x24 {
            Some(pos + 1)
        } else if op == 0x25 {
            Some(pos + 1)
        } else if op == 0x26 {
            Some(pos + 1)
        } else if op == 0x27 {
            Some(pos + 1)
        } else if op == 0x28 {
            Some(pos + 1)
        } else if op == 0x29 {
            Some(pos + 1)
        } else if op == 0x2a {
            Some(pos + 1)
        } else if op == 0x2b {
            Some(pos + 1)
        } else if op == 0x2c {
            Some(pos + 1)
        } else if op == 0x2d {
            Some(pos + 1)
        } else if op == 0x2e {
            Some(pos + 1)
        } else if op == 0x2f {
            Some(pos + 1)
        } else if op == 0x30 {
            Some(pos + 1)
        } else if op == 0x31 {
            Some(pos + 1)
        } else if op == 0x32 {
            Some(pos + 1)
        } else if op == 0x33 {
            Some(pos + 1)
        } else if op == 0x34 {
            Some(pos + 1)
        } else if op == 0x35 {
            Some(pos + 1)
        } else if op == 0x36 {
            if pos + 2 <= s.len() {
                Some(pos + 2)
            } else {
                None
            }
        } else if op == 0x37 {
            if pos + 2 <= s.len() {
                Some(pos + 2)
            } else {
                None
            }
        } else if op == 0x38 {
            if pos + 2 <= s.len() {
                Some(pos + 2)
            } else {
                None
            }
        } else if op == 0x39 {
            if pos + 2 <= s.len() {
                Some(pos + 2)
            } else {
                None
            }
        } else if op == 0x3a {
            if pos + 2 <= s.len() {
                Some(pos + 2)
            } else {
                None
            }
        } else if op == 0x3b {
            Some(pos + 1)
        } else if op == 0x3c {
            Some(pos + 1)
        } else if op == 0x3d {
            Some(pos + 1)
        } else if op == 0x3e {
            Some(pos + 1)
        } else if op == 0x3f {
            Some(pos + 1)
        } else if op == 0x40 {
            Some(pos + 1)
        } else if op == 0x41 {
            Some(pos + 1)
        } else if op == 0x42 {
            Some(pos + 1)
        } else if op == 0x43 {
            Some(pos + 1)
        } else if op == 0x44 {
            Some(pos + 1)
        } else if op == 0x45 {
            Some(pos + 1)
        } else if op == 0x46 {
            Some(pos + 1)
        } else if op == 0x47 {
            Some(pos + 1)
        } else if op == 0x48 {
            Some(pos + 1)
        } else if op == 0x49 {
            Some(pos + 1)
        } else if op == 0x4a {
            Some(pos + 1)
        } else if op == 0x4b {
            Some(pos + 1)
        } else if op == 0x4c {
            Some(pos + 1)
        } else if op == 0x4d {
            Some(pos + 1)
        } else if op == 0x4e {
            Some(pos + 1)
        } else if op == 0x4f {
            Some(pos + 1)
        } else if op == 0x50 {
            Some(pos + 1)
        } else if op == 0x51 {
            Some(pos + 1)
        } else if op == 0x52 {
            Some(pos + 1)
        } else if op == 0x53 {
            Some(pos + 1)
        } else if op == 0x54 {
            Some(pos + 1)
        } else if op == 0x55 {
            Some(pos + 1)
        } else if op == 0x56 {
            Some(pos + 1)
        } else if op == 0x57 {
            Some(pos + 1)
        } else if op == 0x58 {
            Some(pos + 1)
        } else if op == 0x59 {
            Some(pos + 1)
        } else if op == 0x5a {
            Some(pos + 1)
        } else if op == 0x5b {
            Some(pos + 1)
        } else if op == 0x5c {
            Some(pos + 1)
        } else if op == 0x5d {
            Some(pos + 1)
        } else if op == 0x5e {
            Some(pos + 1)
        } else if op == 0x5f {
            Some(pos + 1)
        } else if op == 0x60 {
            Some(pos + 1)
        } else if op == 0x61 {
            Some(pos + 1)
        } else if op == 0x62 {
            Some(pos + 1)
        } else if op == 0x63 {
            Some(pos + 1)
        } else if op == 0x64 {
            Some(pos + 1)
        } else if op == 0x65 {
            Some(pos + 1)
        } else if op == 0x66 {
            Some(pos + 1)
        } else if op == 0x67 {
            Some(pos + 1)
        } else if op == 0x68 {
            Some(pos + 1)
        } else if op == 0x69 {
            Some(pos + 1)
        } else if op == 0x6a {
            Some(pos + 1)
        } else if op == 0x6b {
            Some(pos + 1)
        } else if op == 0x6c {
            Some(pos + 1)
        } else if op == 0x6d {
            Some(pos + 1)
        } else if op == 0x6e {
            Some(pos + 1)
        } else if op == 0x6f {
            Some(pos + 1)
        } else if op == 0x70 {
            Some(pos + 1)
        } else if op == 0x71 {
            Some(pos + 1)
        } else if op == 0x72 {
            Some(pos + 1)
        } else if op == 0x73 {
            Some(pos + 1)
        } else if op == 0x74 {
            Some(pos + 1)
        } else if op == 0x75 {
            Some(pos + 1)
        } else if op == 0x76 {
            Some(pos + 1)
        } else if op == 0x77 {
            Some(pos + 1)
        } else if op == 0x78 {
            Some(pos + 1)
        } else if op == 0x79 {
            Some(pos + 1)
        } else if op == 0x7a {
            Some(pos + 1)
        } else if op == 0x7b {
            Some(pos + 1)
        } else if op == 0x7c {
            Some(pos + 1)
        } else if op == 0x7d {
            Some(pos + 1)
        } else if op == 0x7e {
            Some(pos + 1)
        } else if op == 0x7f {
            Some(pos + 1)
        } else if op == 0x80 {
            Some(pos + 1)
        } else if op == 0x81 {
            Some(pos + 1)
        } else if op == 0x82 {
            Some(pos + 1)
        } else if op == 0x83 {
            Some(pos + 1)
        } else if op == 0x84 {
            if pos + 3 <= s.len() {
                Some(pos + 3)
            } else {
                None
            }
        } else if op == 0x85 {
            Some(pos + 1)
        } else if op == 0x86 {
            Some(pos + 1)
        } else if op == 0x87 {
            Some(pos + 1)
        } else if op == 0x88 {
            Some(pos + 1)
        } else if op == 0x89 {
            Some(pos + 1)
        } else if op == 0x8a {
            Some(pos + 1)
        } else if op == 0x8b {
            Some(pos + 1)
        } else if op == 0x8c {
            Some(pos + 1)
        } else if op == 0x8d {
            Some(pos + 1)
        } else if op == 0x8e {
            Some(pos + 1)
        } else if op == 0x8f {
            Some(pos + 1)
        } else if op == 0x91 {
            Some(pos + 1)
        } else if op == 0x92 {
            Some(pos + 1)
        } else if op == 0x93 {
            Some(pos + 1)
        } else if op == 0x94 {
            Some(pos + 1)
        } else if op == 0x95 {
            Some(pos + 1)
        } else if op == 0x96 {
            Some(pos + 1)
        } else if op == 0x97 {
            Some(pos + 1)
        } else if op == 0x98 {
            Some(pos + 1)
        } else if op == 0x99 {
            if pos + 3 <= s.len() {
                Some(pos + 3)
            } else {
                None
            }
        } else if op == 0x9a {
            if pos + 3 <= s.len() {
                Some(pos + 3)
            } else {
                None
            }
        } else if op == 0x9b {
            if pos + 3 <= s.len() {
                Some(pos + 3)
            } else {
                None
            }
        } else if op == 0x9c {
            if pos + 3 <= s.len() {
                Some(pos + 3)
            } else {
                None
            }
        } else if op == 0x9d {
            if pos + 3 <= s.len() {
                Some(pos + 3)
            } else {
                None
            }
        } else if op == 0x9e {
            if pos + 3 <= s.len() {
                Some(pos + 3)
            } else {
                None
            }
        } else if op == 0x9f {
            if pos + 3 <= s.len() {
                Some(pos + 3)
            } else {
                None
            }
        } else if op == 0xa0 {
            if pos + 3 <= s.len() {
                Some(pos + 3)
            } else {
                None
            }
        } else if op == 0xa1 {
            if pos + 3 <= s.len() {
                Some(pos + 3)
            } else {
                None
            }
        } else if op == 0xa2 {
            if pos + 3 <= s.len() {
                Some(pos + 3)
            } else {
                None
            }
        } else if op == 0xa3 {
            if pos + 3 <= s.len() {
                Some(pos + 3)
            } else {
                None
            }
        } else if op == 0xa4 {
            if pos + 3 <= s.len() {
                Some(pos + 3)
            } else {
                None
            }
        } else if op == 0xa5 {
            if pos + 3 <= s.len() {
                Some(pos + 3)
            } else {
                None
            }
        } else if op == 0xa6 {
            if pos + 3 <= s.len() {
                Some(pos + 3)
            } else {
                None
            }
        } else if op == 0xa7 {
            if pos + 3 <= s.len() {
                Some(pos + 3)
            } else {
                None
            }
        } else if op == 0xa8 {
            if pos + 3 <= s.len() {
                Some(pos + 3)
            } else {
                None
            }
        } else if op == 0xa9 {
            if pos + 2 <= s.len() {
                Some(pos + 2)
            } else {
                None
            }
        } else if op == 0xac {
            Some(pos + 1)
        } else if op == 0xad {
            Some(pos + 1)
        } else if op == 0xae {
            Some(pos + 1)
        } else if op == 0xaf {
            Some(pos + 1)
        } else if op == 0xb0 {
            Some(pos + 1)
        } else if op == 0xb1 {
            Some(pos + 1)
        } else if op == 0xb2 {
            if pos + 3 <= s.len() {
                Some(pos + 3)
            } else {
                None
            }
        } else if op == 0xb3 {
            if pos + 3 <= s.len() {
                Some(pos + 3)
            } else {
                None
            }
        } else if op == 0xb4 {
            if pos + 3 <= s.len() {
                Some(pos + 3)
            } else {
                None
            }
        } else if op == 0xb5 {
            if pos + 3 <= s.len() {
                Some(pos + 3)
            } else {
                None
            }
        } else if op == 0xb6 {
            if pos + 3 <= s.len() {
                Some(pos + 3)
            } else {
                None
            }
        } else if op == 0xb7 {
            if pos + 3 <= s.len() {
                Some(pos + 3)
            } else {
                None
            }
        } else if op == 0xb8 {
            if pos + 3 <= s.len() {
                Some(pos + 3)
            } else {
                None
            }
        } else if op == 0xb9 {
            if pos + 4 <= s.len() {
                Some(pos + 4)
            } else {
                None
            }
        } else if op == 0xba {
            if pos + 3 <= s.len() {
                Some(pos + 3)
            } else {
                None
            }
        } else if op == 0xbb {
            if pos + 3 <= s.len() {
                Some(pos + 3)
            } else {
                None
            }
        } else if op == 0xbc {
            if pos + 2 <= s.len() {
                Some(pos + 2)
            } else {
                None
            }
        } else if op == 0xbd {
            if pos + 3 <= s.len() {
                Some(pos + 3)
            } else {
                None
            }
        } else if op == 0xbe {
            Some(pos + 1)
        } else if op == 0xbf {
            Some(pos + 1)
        } else if op == 0xc0 {
            if pos + 3 <= s.len() {
                Some(pos + 3)
            } else {
                None
            }
        } else if op == 0xc1 {
            if pos + 3 <= s.len() {
                Some(pos + 3)
            } else {
                None
            }
        } else if op == 0xc2 {
            Some(pos + 1)
        } else if op == 0xc3 {
            Some(pos + 1)
        } else if op == 0xc5 {
            if pos + 4 <= s.len() {
                Some(pos + 4)
            } else {
                None
            }
        } else if op == 0xc6 {
            if pos + 3 <= s.len() {
                Some(pos + 3)
            } else {
                None
            }
        } else if op == 0xc7 {
            if pos + 3 <= s.len() {
                Some(pos + 3)
            } else {
                None
            }
        } else if op == 0xc8 {
            if pos + 5 <= s.len() {
                Some(pos + 5)
            } else {
                None
            }
        } else if op == 0xc9 {
            if pos + 5 <= s.len() {
                Some(pos + 5)
            } else {
                None
            }
        } else if op == 0xaa {
            if pos + 13 <= s.len() {
                let low = be32(s, pos + 5) as i32;
                let high = be32(s, pos + 9) as i32;
                let cnt = if low <= high { high - low + 1 } else { 0 };
                if pos + 13 + 4 * cnt <= s.len() {
                    Some(pos + 13 + 4 * cnt)
                } else {
                    None
                }
            } else {
                None
            }
        } else if op == 0xab {
            if pos + 9 <= s.len() {
                let npairs = be32(s, pos + 5);
                if pos + 9 + 8 * (npairs as int) <= s.len() {
                    Some(pos + 9 + 8 * (npairs as int))
                } else {
                    None
                }
            } else {
                None
            }
        } else if op == 0xc4 {
            match spec_instr_end(s, pos + 1) {
                None => None,
                Some(m) => if m + 2 <= s.len() {
                    Some(m + 2)
                } else {
                    None
                },
            }
        } else {
            None
        }
    }
}

/// Whatever decodes at `pos` ends where [`spec_instr_end`] says.
pub proof fn lemma_instr_decoded_end(s: Seq<u8>, pos: int, i: Instr, end: int)
    requires
        instr_decoded(s, pos, i, end),
    ensures
        spec_instr_end(s, pos) == Some(end),
    decreases i,
{
    reveal(instr_decoded);
    reveal(spec_instr_end);
    if pos + 1 <= s.len() && s[pos] == 0xc4 {
        match i {
            Instr::Wide { instr, index } => {
                lemma_instr_decoded_end(s, pos + 1, *instr, end - 2);
            },
            _ => {
            },
        }
    }
}

/// Where [`spec_instr_end`] gives no end, nothing decodes.
pub proof fn lemma_instr_end_none(s: Seq<u8>, pos: int)
    requires
        spec_instr_end(s, pos) is None,
    ensures
        forall|i: Instr, end: int| !instr_decoded(s, pos, i, end),
{
    assert forall|i: Instr, end: int| !instr_decoded(s, pos, i, end) by {
        if instr_decoded(s, pos, i, end) {
            lemma_instr_decoded_end(s, pos, i, end);
        }
    }
}

impl Instr {
    /// Decodes the single instruction at `pos`. Fails with `InvalidClass`
    /// on an unknown opcode byte or a truncated instruction.
    #[verifier::loop_isolation(false)]
    #[verifier::rlimit(100)]
    pub fn from_bytes(s: &[u8], pos: usize) -> (r: Result<(Instr, usize), Error>)
        ensures
            match r {
                Ok(v) => instr_decoded(s@, pos as int, v.0, v.1 as int) && spec_instr_end(
                    s@,
                    pos as int,
                ) == Some(v.1 as int) && pos < v.1 <= s@.len(),
                Err(e) => spec_instr_end(s@, pos as int) is None && e == Error::InvalidClass,
            },
        decreases s@.len() - pos,
    {
        proof {
            reveal(instr_decoded);
            reveal(spec_instr_end);
        }
        let (op, p) = read_u8(s, pos)?;
        match op {
            0x00 => Ok((Instr::Nop, p)),
            0x01 => Ok((Instr::AconstNull, p)),
            0x02 => Ok((Instr::IconstM1, p)),
            0x03 => Ok((Instr::Iconst0, p)),
            0x04 => Ok((Instr::Iconst1, p)),
            0x05 => Ok((Instr::Iconst2, p)),
            0x06 => Ok((Instr::Iconst3, p)),
            0x07 => Ok((Instr::Iconst4, p)),
            0x08 => Ok((Instr::Iconst5, p)),
            0x09 => Ok((Instr::Lconst0, p)),
            0x0a => Ok((Instr::Lconst1, p)),
            0x0b => Ok((Instr::Fconst0, p)),
            0x0c => Ok((Instr::Fconst1, p)),
            0x0d => Ok((Instr::Fconst2, p)),
            0x0e => Ok((Instr::Dconst0, p)),
            0x0f => Ok((Instr::Dconst1, p)),
            0x10 => {
                let (a, p) = read_i8(s, p)?;
                Ok((Instr::Bipush(a), p))
            },
            0x11 => {
                let (a, p) = read_i16(s, p)?;
                Ok((Instr::Sipush(a), p))
            },
            0x12 => {
                let (a, p) = read_u8(s, p)?;
                Ok((Instr::Ldc(a), p))
            },
            0x13 => {
                let (a, p) = read_u16(s, p)?;
                Ok((Instr::LdcW(a), p))
            },
            0x14 => {
                let (a, p) = read_u16(s, p)?;
                Ok((Instr::Ldc2W(a), p))
            },
            0x15 => {
                let (a, p) = read_u8(s, p)?;
                Ok((Instr::Iload(a), p))
            },
            0x16 => {
                let (a, p) = read_u8(s, p)?;
                Ok((Instr::Lload(a), p))
            },
            0x17 => {
                let (a, p) = read_u8(s, p)?;
                Ok((Instr::Fload(a), p))
            },
            0x18 => {
                let (a, p) = read_u8(s, p)?;
                Ok((Instr::Dload(a), p))
            },
            0x19 => {
                let (a, p) = read_u8(s, p)?;
                Ok((Instr::Aload(a), p))
            },
            0x1a => Ok((Instr::Iload0, p)),
            0x1b => Ok((Instr::Iload1, p)),
            0x1c => Ok((Instr::Iload2, p)),
            0x1d => Ok((Instr::Iload3, p)),
            0x1e => Ok((Instr::Lload0, p)),
            0x1f => Ok((Instr::Lload1, p)),
            0x20 => Ok((Instr::Lload2, p)),
            0x21 => Ok((Instr::Lload3, p)),
            0x22 => Ok((Instr::Fload0, p)),
            0x23 => Ok((Instr::Fload1, p)),
            0x24 => Ok((Instr::Fload2, p)),
            0x25 => Ok((Instr::Fload3, p)),
            0x26 => Ok((Instr::Dload0, p)),
            0x27 => Ok((Instr::Dload1, p)),
            0x28 => Ok((Instr::Dload2, p)),
            0x29 => Ok((Instr::Dload3, p)),
            0x2a => Ok((Instr::Aload0, p)),
            0x2b => Ok((Instr::Aload1, p)),
            0x2c => Ok((Instr::Aload2, p)),
            0x2d => Ok((Instr::Aload3, p)),
            0x2e => Ok((Instr::Iaload, p)),
            0x2f => Ok((Instr::Laload, p)),
            0x30 => Ok((Instr::Faload, p)),
            0x31 => Ok((Instr::Daload, p)),
            0x32 => Ok((Instr::Aaload, p)),
            0x33 => Ok((Instr::Baload, p)),
            0x34 => Ok((Instr::Caload, p)),
            0x35 => Ok((Instr::Saload, p)),
            0x36 => {
                let (a, p) = read_u8(s, p)?;
                Ok((Instr::Istore(a), p))
            },
            0x37 => {
                let (a, p) = read_u8(s, p)?;
                Ok((Instr::Lstore(a), p))
            },
            0x38 => {
                let (a, p) = read_u8(s, p)?;
                Ok((Instr::Fstore(a), p))
            },
            0x39 => {
                let (a, p) = read_u8(s, p)?;
                Ok((Instr::Dstore(a), p))
            },
            0x3a => {
                let (a, p) = read_u8(s, p)?;
                Ok((Instr::Astore(a), p))
            },
            0x3b => Ok((Instr::Istore0, p)),
            0x3c => Ok((Instr::Istore1, p)),
            0x3d => Ok((Instr::Istore2, p)),
            0x3e => Ok((Instr::Istore3, p)),
            0x3f => Ok((Instr::Lstore0, p)),
            0x40 => Ok((Instr::Lstore1, p)),
            0x41 => Ok((Instr::Lstore2, p)),
            0x42 => Ok((Instr::Lstore3, p)),
            0x43 => Ok((Instr::Fstore0, p)),
            0x44 => Ok((Instr::Fstore1, p)),
            0x45 => Ok((Instr::Fstore2, p)),
            0x46 => Ok((Instr::Fstore3, p)),
            0x47 => Ok((Instr::Dstore0, p)),
            0x48 => Ok((Instr::Dstore1, p)),
            0x49 => Ok((Instr::Dstore2, p)),
            0x4a => Ok((Instr::Dstore3, p)),
            0x4b => Ok((Instr::Astore0, p)),
            0x4c => Ok((Instr::Astore1, p)),
            0x4d => Ok((Instr::Astore2, p)),
            0x4e => Ok((Instr::Astore3, p)),
            0x4f => Ok((Instr::Iastore, p)),
            0x50 => Ok((Instr::Lastore, p)),
            0x51 => Ok((Instr::Fastore, p)),
            0x52 => Ok((Instr::Dastore, p)),
            0x53 => Ok((Instr::Aastore, p)),
            0x54 => Ok((Instr::Bastore, p)),
            0x55 => Ok((Instr::Castore, p)),
            0x56 => Ok((Instr::Sastore, p)),
            0x57 => Ok((Instr::Pop, p)),
            0x58 => Ok((Instr::Pop2, p)),
            0x59 => Ok((Instr::Dup, p)),
            0x5a => Ok((Instr::DupX1, p)),
            0x5b => Ok((Instr::DupX2, p)),
            0x5c => Ok((Instr::Dup2, p)),
            0x5d => Ok((Instr::Dup2X1, p)),
            0x5e => Ok((Instr::Dup2X2, p)),
            0x5f => Ok((Instr::Swap, p)),
            0x60 => Ok((Instr::Iadd, p)),
            0x61 => Ok((Instr::Ladd, p)),
            0x62 => Ok((Instr::Fadd, p)),
            0x63 => Ok((Instr::Dadd, p)),
            0x64 => Ok((Instr::Isub, p)),
            0x65 => Ok((Instr::Lsub, p)),
            0x66 => Ok((Instr::Fsub, p)),
            0x67 => Ok((Instr::Dsub, p)),
            0x68 => Ok((Instr::Imul, p)),
            0x69 => Ok((Instr::Lmul, p)),
            0x6a => Ok((Instr::Fmul, p)),
            0x6b => Ok((Instr::Dmul, p)),
            0x6c => Ok((Instr::Idiv, p)),
            0x6d => Ok((Instr::Ldiv, p)),
            0x6e => Ok((Instr::Fdiv, p)),
            0x6f => Ok((Instr::Ddiv, p)),
            0x70 => Ok((Instr::Irem, p)),
            0x71 => Ok((Instr::Lrem, p)),
            0x72 => Ok((Instr::Frem, p)),
            0x73 => Ok((Instr::Drem, p)),
            0x74 => Ok((Instr::Ineg, p)),
            0x75 => Ok((Instr::Lneg, p)),
            0x76 => Ok((Instr::Fneg, p)),
            0x77 => Ok((Instr::Dneg, p)),
            0x78 => Ok((Instr::Ishl, p)),
            0x79 => Ok((Instr::Lshl, p)),
            0x7a => Ok((Instr::Ishr, p)),
            0x7b => Ok((Instr::Lshr, p)),
            0x7c => Ok((Instr::Iushr, p)),
            0x7d => Ok((Instr::Lushr, p)),
            0x7e => Ok((Instr::Iand, p)),
            0x7f => Ok((Instr::Land, p)),
            0x80 => Ok((Instr::Ior, p)),
            0x81 => Ok((Instr::Lor, p)),
            0x82 => Ok((Instr::Ixor, p)),
            0x83 => Ok((Instr::Lxor, p)),
            0x84 => {
                let (a, p) = read_u8(s, p)?;
                let (b, p) = read_i8(s, p)?;
                Ok((Instr::Iinc(a, b), p))
            },
            0x85 => Ok((Instr::I2l, p)),
            0x86 => Ok((Instr::I2f, p)),
            0x87 => Ok((Instr::I2d, p)),
            0x88 => Ok((Instr::L2i, p)),
            0x89 => Ok((Instr::L2f, p)),
            0x8a => Ok((Instr::L2d, p)),
            0x8b => Ok((Instr::F2i, p)),
            0x8c => Ok((Instr::F2l, p)),
            0x8d => Ok((Instr::D2i, p)),
            0x8e => Ok((Instr::D2f, p)),
            0x8f => Ok((Instr::D2l, p)),
            0x91 => Ok((Instr::I2b, p)),
            0x92 => Ok((Instr::I2c, p)),
            0x93 => Ok((Instr::I2s, p)),
            0x94 => Ok((Instr::Lcmp, p)),
            0x95 => Ok((Instr::Fcmpl, p)),
            0x96 => Ok((Instr::Fcmpg, p)),
            0x97 => Ok((Instr::Dcmpl, p)),
            0x98 => Ok((Instr::Dcmpg, p)),
            0x99 => {
                let (a, p) = read_i16(s, p)?;
                Ok((Instr::Ifeq(a), p))
            },
            0x9a => {
                let (a, p) = read_i16(s, p)?;
                Ok((Instr::Ifne(a), p))
            },
            0x9b => {
                let (a, p) = read_i16(s, p)?;
                Ok((Instr::Iflt(a), p))
            },
            0x9c => {
                let (a, p) = read_i16(s, p)?;
                Ok((Instr::Ifge(a), p))
            },
            0x9d => {
                let (a, p) = read_i16(s, p)?;
                Ok((Instr::Ifgt(a), p))
            },
            0x9e => {
                let (a, p) = read_i16(s, p)?;
                Ok((Instr::Ifle(a), p))
            },
            0x9f => {
                let (a, p) = read_i16(s, p)?;
                Ok((Instr::IfIcmpeq(a), p))
            },
            0xa0 => {
                let (a, p) = read_i16(s, p)?;
                Ok((Instr::IfIcmpne(a), p))
            },
            0xa1 => {
                let (a, p) = read_i16(s, p)?;
                Ok((Instr::IfIcmplt(a), p))
            },
            0xa2 => {
                let (a, p) = read_i16(s, p)?;
                Ok((Instr::IfIcmpge(a), p))
            },
            0xa3 => {
                let (a, p) = read_i16(s, p)?;
                Ok((Instr::IfIcmpgt(a), p))
            },
            0xa4 => {
                let (a, p) = read_i16(s, p)?;
                Ok((Instr::IfIcmple(a), p))
            },
            0xa5 => {
                let (a, p) = read_i16(s, p)?;
                Ok((Instr::IfAcmpeq(a), p))
            },
            0xa6 => {
                let (a, p) = read_i16(s, p)?;
                Ok((Instr::IfAcmpne(a), p))
            },
            0xa7 => {
                let (a, p) = read_i16(s, p)?;
                Ok((Instr::Goto(a), p))
            },
            0xa8 => {
                let (a, p) = read_i16(s, p)?;
                Ok((Instr::Jsr(a), p))
            },
            0xa9 => {
                let (a, p) = read_u8(s, p)?;
                Ok((Instr::Ret(a), p))
            },
            0xac => Ok((Instr::Ireturn, p)),
            0xad => Ok((Instr::Lreturn, p)),
            0xae => Ok((Instr::Freturn, p)),
            0xaf => Ok((Instr::Dreturn, p)),
            0xb0 => Ok((Instr::Areturn, p)),
            0xb1 => Ok((Instr::Return, p)),
            0xb2 => {
                let (a, p) = read_u16(s, p)?;
                Ok((Instr::Getstatic(a), p))
            },
            0xb3 => {
                let (a, p) = read_u16(s, p)?;
                Ok((Instr::Putstatic(a), p))
            },
            0xb4 => {
                let (a, p) = read_u16(s, p)?;
                Ok((Instr::Getfield(a), p))
            },
            0xb5 => {
                let (a, p) = read_u16(s, p)?;
                Ok((Instr::Putfield(a), p))
            },
            0xb6 => {
                let (a, p) = read_u16(s, p)?;
                Ok((Instr::Invokevirtual(a), p))
            },
            0xb7 => {
                let (a, p) = read_u16(s, p)?;
                Ok((Instr::Invokespecial(a), p))
            },
            0xb8 => {
                let (a, p) = read_u16(s, p)?;
                Ok((Instr::Invokestatic(a), p))
            },
            0xb9 => {
                let (a, p) = read_u16(s, p)?;
                let (b, p) = read_u8(s, p)?;
                Ok((Instr::Invokeinterface(a, b), p))
            },
            0xba => {
                let (a, p) = read_u16(s, p)?;
                Ok((Instr::Invokedynamic(a), p))
            },
            0xbb => {
                let (a, p) = read_u16(s, p)?;
                Ok((Instr::New(a), p))
            },
            0xbc => {
                let (a, p) = read_u8(s, p)?;
                Ok((Instr::Newarray(a), p))
            },
            0xbd => {
                let (a, p) = read_u16(s, p)?;
                Ok((Instr::Anewarray(a), p))
            },
            0xbe => Ok((Instr::Arraylength, p)),
            0xbf => Ok((Instr::Athrow, p)),
            0xc0 => {
                let (a, p) = read_u16(s, p)?;
                Ok((Instr::Checkcast(a), p))
            },
            0xc1 => {
                let (a, p) = read_u16(s, p)?;
                Ok((Instr::Instanceof(a), p))
            },
            0xc2 => Ok((Instr::Monitorenter, p)),
            0xc3 => Ok((Instr::Monitorexit, p)),
            0xc5 => {
                let (a, p) = read_u16(s, p)?;
                let (b, p) = read_u8(s, p)?;
                Ok((Instr::Multianewarray(a, b), p))
            },
            0xc6 => {
                let (a, p) = read_i16(s, p)?;
                Ok((Instr::Ifnull(a), p))
            },
            0xc7 => {
                let (a, p) = read_i16(s, p)?;
                Ok((Instr::Ifnonnull(a), p))
            },
            0xc8 => {
                let (a, p) = read_i32(s, p)?;
                Ok((Instr::GotoW(a), p))
            },
            0xc9 => {
                let (a, p) = read_i32(s, p)?;
                Ok((Instr::JsrW(a), p))
            },
            0xaa => {
                let (default, p1) = read_i32(s, p)?;
                let (low, p2) = read_i32(s, p1)?;
                let (high, p3) = read_i32(s, p2)?;
                let cnt64: i64 = if low <= high {
                    (high as i64) - (low as i64) + 1
                } else {
                    0
                };
                let rem: usize = s.len() - p3;
                if cnt64 > (rem / 4) as i64 {
                    return Err(Error::InvalidClass);
                }
                let cnt: usize = cnt64 as usize;
                let mut jump_offsets: Vec<i32> = Vec::new();
                let mut k: usize = 0;
                while k < cnt
                    invariant
                        k <= cnt,
                        jump_offsets@ == be_i32_seq(s@, p3 as int, k as nat),
                    decreases cnt - k,
                {
                    let (v, _) = match read_i32(s, p3 + 4 * k) {
                        Ok(v) => v,
                        Err(_) => {
                            proof {
                                assert(false);
                            }
                            return Err(Error::InvalidClass);
                        },
                    };
                    jump_offsets.push(v);
                    k = k + 1;
                    proof {
                        assert(jump_offsets@ =~= be_i32_seq(s@, p3 as int, k as nat));
                    }
                }
                Ok((Instr::Tableswitch { default, low, high, jump_offsets }, p3 + 4 * cnt))
            },
            0xab => {
                let (default, p1) = read_i32(s, p)?;
                let (npairs, p2) = read_u32(s, p1)?;
                let rem: usize = s.len() - p2;
                if (npairs as u64) > (rem / 8) as u64 {
                    return Err(Error::InvalidClass);
                }
                let cnt: usize = npairs as usize;
                let mut match_offsets: Vec<(i32, i32)> = Vec::new();
                let mut k: usize = 0;
                while k < cnt
                    invariant
                        k <= cnt,
                        match_offsets@ == be_pair_seq(s@, p2 as int, k as nat),
                    decreases cnt - k,
                {
                    let (mv, _) = match read_i32(s, p2 + 8 * k) {
                        Ok(v) => v,
                        Err(_) => {
                            proof {
                                assert(false);
                            }
                            return Err(Error::InvalidClass);
                        },
                    };
                    let (ov, _) = match read_i32(s, p2 + 8 * k + 4) {
                        Ok(v) => v,
                        Err(_) => {
                            proof {
                                assert(false);
                            }
                            return Err(Error::InvalidClass);
                        },
                    };
                    match_offsets.push((mv, ov));
                    k = k + 1;
                    proof {
                        assert(match_offsets@ =~= be_pair_seq(s@, p2 as int, k as nat));
                    }
                }
                Ok((Instr::Lookupswitch { default, npairs, match_offsets }, p2 + 8 * cnt))
            },
            0xc4 => {
                let (inner, p1) = Instr::from_bytes(s, p)?;
                let (index, p2) = read_u16(s, p1)?;
                let r = Instr::Wide { instr: Box::new(inner), index };
                proof {
                    assert(r matches Instr::Wide { instr, index: ix } && instr_decoded(
                        s@,
                        pos + 1,
                        *instr,
                        p2 - 2,
                    ) && ix == be16(s@, p2 - 2));
                }
                Ok((r, p2))
            },
            _ => Err(Error::InvalidClass),
        }
    }
}

/// The whole byte region `[pos, s.len())` decodes exactly to `instrs`.
#[verifier::opaque]
pub open spec fn code_decoded(s: Seq<u8>, pos: int, instrs: Seq<Instr>) -> bool
    decreases instrs.len(),
{
    if instrs.len() == 0 {
        pos == s.len()
    } else {
        match spec_instr_end(s, pos) {
            None => false,
            Some(mid) => instr_decoded(s, pos, instrs[0], mid) && code_decoded(
                s,
                mid,
                instrs.skip(1),
            ),
        }
    }
}

/// Two decodes of one whole region hold the same number of
/// instructions: each position admits at most one instruction, ending at
/// one place.
pub proof fn lemma_code_decoded_same_len(s: Seq<u8>, pos: int, a: Seq<Instr>, b: Seq<Instr>)
    requires
        code_decoded(s, pos, a),
        code_decoded(s, pos, b),
    ensures
        a.len() == b.len(),
    decreases a.len(),
{
    reveal(code_decoded);
    reveal(spec_instr_end);
    if a.len() > 0 {
        let mid = spec_instr_end(s, pos)->Some_0;
        assert(b.len() > 0);
        lemma_code_decoded_same_len(s, mid, a.skip(1), b.skip(1));
    }
}

/// The bytes `[pos, end)` decode exactly to `instrs` (each instruction
/// strictly advances the position, staying inside the region).
#[verifier::opaque]
pub open spec fn decodes_range(s: Seq<u8>, pos: int, end: int, instrs: Seq<Instr>) -> bool
    decreases instrs.len(),
{
    if instrs.len() == 0 {
        pos == end
    } else {
        match spec_instr_end(s, pos) {
            None => false,
            Some(mid) => pos < mid <= end && instr_decoded(s, pos, instrs[0], mid)
                && decodes_range(s, mid, end, instrs.skip(1)),
        }
    }
}

/// Appends one decoded instruction to a decoded range.
proof fn lemma_decodes_range_push(s: Seq<u8>, pos: int, cur: int, p2: int, pre: Seq<Instr>, c: Instr)
    requires
        decodes_range(s, pos, cur, pre),
        instr_decoded(s, cur, c, p2),
        cur < p2 <= s.len(),
    ensures
        decodes_range(s, pos, p2, pre.push(c)),
    decreases pre.len(),
{
    reveal_with_fuel(decodes_range, 2);
    lemma_instr_decoded_end(s, cur, c, p2);
    if pre.len() == 0 {
        assert(pre.push(c)[0] == c);
        assert(pre.push(c).skip(1) =~= Seq::<Instr>::empty());
    } else {
        let mid = spec_instr_end(s, pos)->Some_0;
        lemma_decodes_range_push(s, mid, cur, p2, pre.skip(1), c);
        assert(pre.push(c)[0] == pre[0]);
        assert(pre.push(c).skip(1) =~= pre.skip(1).push(c));
    }
}

/// A range decode that ends at the end of the buffer is a whole-buffer
/// decode.
proof fn lemma_decodes_range_all(s: Seq<u8>, pos: int, pre: Seq<Instr>)
    requires
        decodes_range(s, pos, s.len() as int, pre),
    ensures
        code_decoded(s, pos, pre),
    decreases pre.len(),
{
    reveal(decodes_range);
    reveal(code_decoded);
    if pre.len() == 0 {
    } else {
        let mid = spec_instr_end(s, pos)->Some_0;
        lemma_decodes_range_all(s, mid, pre.skip(1));
    }
}

/// Decoding is deterministic: a whole-buffer decode passes through the
/// end of any decoded prefix range.
proof fn lemma_decode_extend(s: Seq<u8>, pos: int, cur: int, pre: Seq<Instr>, instrs: Seq<Instr>)
    requires
        decodes_range(s, pos, cur, pre),
        code_decoded(s, pos, instrs),
        cur <= s.len(),
    ensures
        pre.len() <= instrs.len(),
        code_decoded(s, cur, instrs.skip(pre.len() as int)),
    decreases pre.len(),
{
    reveal(decodes_range);
    reveal(code_decoded);
    if pre.len() == 0 {
        assert(instrs.skip(0) =~= instrs);
    } else {
        let mid = spec_instr_end(s, pos)->Some_0;
        assert(instrs.len() != 0);
        lemma_decode_extend(s, mid, cur, pre.skip(1), instrs.skip(1));
        assert(instrs.skip(1).skip(pre.len() - 1) =~= instrs.skip(pre.len() as int));
    }
}

/// Decodes a method's raw code bytes into its instruction sequence,
/// consuming the buffer exactly. Succeeds if and only if some instruction
/// sequence is encoded by the whole buffer, and returns that sequence.
#[verifier::loop_isolation(false)]
pub fn decode_code(s: &[u8]) -> (r: Result<Vec<Instr>, Error>)
    ensures
        match r {
            Ok(v) => code_decoded(s@, 0, v@),
            Err(e) => (forall|instrs: Seq<Instr>| !code_decoded(s@, 0, instrs)) && e
                == Error::InvalidClass,
        },
{
    let mut out: Vec<Instr> = Vec::new();
    let mut cur: usize = 0;
    proof {
        reveal(decodes_range);
        assert(decodes_range(s@, 0, 0, out@));
    }
    while cur < s.len()
        invariant
            cur <= s@.len(),
            decodes_range(s@, 0, cur as int, out@),
        decreases s@.len() - cur,
    {
        let (c, p2) = match Instr::from_bytes(s, cur) {
            Ok(v) => v,
            Err(e) => {
                proof {
                    reveal(code_decoded);
                    assert forall|instrs: Seq<Instr>| !code_decoded(s@, 0, instrs) by {
                        if code_decoded(s@, 0, instrs) {
                            lemma_decode_extend(s@, 0, cur as int, out@, instrs);
                            assert(code_decoded(s@, cur as int, instrs.skip(out@.len() as int)));
                        }
                    }
                }
                return Err(e);
            },
        };
        proof {
            lemma_decodes_range_push(s@, 0, cur as int, p2 as int, out@, c);
        }
        out.push(c);
        cur = p2;
    }
    proof {
        lemma_decodes_range_all(s@, 0, out@);
    }
    Ok(out)
}

/// One exception-table entry: a code range `[start_pc, end_pc)`, a
/// handler entry point, and a catch-type constant-pool index (0 is the
/// wildcard that catches everything). Positions address the decoded
/// instruction sequence by index.
#[derive(Clone, Copy, Debug, PartialEq, Eq, Structural)]
pub struct ExceptionTableEntry {
    pub start_pc: u16,
    pub end_pc: u16,
    pub handler_pc: u16,
    pub catch_type: u16,
}

/// The exception-table entry encoded at `i`: four 16-bit words.
pub open spec fn spec_exception_entry(s: Seq<u8>, i: int) -> ExceptionTableEntry {
    ExceptionTableEntry {
        start_pc: be16(s, i),
        end_pc: be16(s, i + 2),
        handler_pc: be16(s, i + 4),
        catch_type: be16(s, i + 6),
    }
}

/// The exception table at `pos`: a 16-bit count then that many entries.
pub open spec fn spec_parse_exception_table(s: Seq<u8>, pos: int) -> Option<
    (Seq<ExceptionTableEntry>, int),
> {
    if pos + 2 <= s.len() {
        let n = be16(s, pos) as int;
        if pos + 2 + 8 * n <= s.len() {
            Some(
                (
                    Seq::new(n as nat, |k: int| spec_exception_entry(s, pos + 2 + 8 * k)),
                    pos + 2 + 8 * n,
                ),
            )
        } else {
            None
        }
    } else {
        None
    }
}

impl ExceptionTableEntry {
    /// Decodes one exception-table entry at `pos`.
    pub fn from_bytes(s: &[u8], pos: usize) -> (r: Result<(ExceptionTableEntry, usize), Error>)
        ensures
            match r {
                Ok(v) => pos + 8 <= s@.len() && v.0 == spec_exception_entry(s@, pos as int) && v.1
                    == pos + 8,
                Err(e) => pos + 8 > s@.len() && e == Error::InvalidClass,
            },
    {
        let (start_pc, p) = read_u16(s, pos)?;
        let (end_pc, p) = read_u16(s, p)?;
        let (handler_pc, p) = read_u16(s, p)?;
        let (catch_type, p) = read_u16(s, p)?;
        Ok((ExceptionTableEntry { start_pc, end_pc, handler_pc, catch_type }, p))
    }
}

/// Decodes an exception table at `pos`.
#[verifier::loop_isolation(false)]
pub fn parse_exception_table(s: &[u8], pos: usize) -> (r: Result<
    (Vec<ExceptionTableEntry>, usize),
    Error,
>)
    ensures
        match r {
            Ok(v) => spec_parse_exception_table(s@, pos as int) == Some(
                (v.0@, v.1 as int),
            ),
            Err(e) => spec_parse_exception_table(s@, pos as int) is None && e
                == Error::InvalidClass,
        },
{
    let (n16, p0) = read_u16(s, pos)?;
    let n: usize = n16 as usize;
    if !has_bytes(s, p0, 8 * n) {
        return Err(Error::InvalidClass);
    }
    let slen: usize = s.len();
    let mut out: Vec<ExceptionTableEntry> = Vec::new();
    let mut k: usize = 0;
    while k < n
        invariant
            k <= n,
            out@ == Seq::new(k as nat, |j: int| spec_exception_entry(s@, p0 + 8 * j)),
        decreases n - k,
    {
        let (e, _) = match ExceptionTableEntry::from_bytes(s, p0 + 8 * k) {
            Ok(v) => v,
            Err(_) => {
                proof {
                    assert(false);
                }
                return Err(Error::InvalidClass);
            },
        };
        out.push(e);
        k = k + 1;
        proof {
            assert(out@ =~= Seq::new(k as nat, |j: int| spec_exception_entry(s@, p0 + 8 * j)));
        }
    }
    proof {
        assert(out@ =~= Seq::new(n as nat, |j: int| spec_exception_entry(s@, p0 + 8 * j)));
    }
    Ok((out, p0 + 8 * n))
}

/// A method's decoded `Code` attribute: operand-stack and local-slot
/// bounds, the instruction sequence, the exception table, and nested
/// attributes.
#[derive(Debug)]
pub struct Code {
    pub max_stack: u16,
    pub max_locals: u16,
    pub code: Vec<Instr>,
    pub exception_table: Vec<ExceptionTableEntry>,
    pub attributes: Vec<Attribute>,
}

/// The mathematical model of a [`Code`] attribute.
#[verifier::ext_equal]
pub ghost struct CodeModel {
    pub max_stack: u16,
    pub max_locals: u16,
    pub code: Seq<Instr>,
    pub exception_table: Seq<ExceptionTableEntry>,
    pub attributes: Seq<AttributeModel>,
}

impl View for Code {
    type V = CodeModel;

    open spec fn view(&self) -> CodeModel {
        CodeModel {
            max_stack: self.max_stack,
            max_locals: self.max_locals,
            code: self.code@,
            exception_table: self.exception_table@,
            attributes: attrs_model(self.attributes@),
        }
    }
}

/// `cm` is the decoding of a whole `Code` attribute payload `s`:
/// max-stack, max-locals, a length-prefixed code region decoded to the
/// instruction sequence, the exception table, then nested attributes.
/// Trailing bytes after the nested attributes are ignored.
pub open spec fn code_attr_parsed(s: Seq<u8>, pool: Seq<ConstantModel>, cm: CodeModel) -> bool {
    8 <= s.len() && cm.max_stack == be16(s, 0) && cm.max_locals == be16(s, 2) && {
        let cl = be32(s, 4) as int;
        8 + cl <= s.len() && code_decoded(s.subrange(8, 8 + cl), 0, cm.code) && match
            spec_parse_exception_table(s, 8 + cl) {
            None => false,
            Some((et, p2)) => cm.exception_table == et && match spec_parse_attribute_list(
                s,
                p2,
                pool,
            ) {
                None => false,
                Some((ats, _)) => cm.attributes == ats,
            },
        }
    }
}

impl Code {
    /// Decodes a `Code` attribute payload. Fails with `InvalidClass` when
    /// any record is truncated, the code region does not decode exactly,
    /// or an attribute name does not resolve to a text constant.
    pub fn from_bytes(s: &[u8], pool: &Vec<Constant>) -> (r: Result<Code, Error>)
        ensures
            match r {
                Ok(c) => code_attr_parsed(s@, pool_model(pool@), c@),
                Err(e) => (forall|cm: CodeModel| !code_attr_parsed(s@, pool_model(pool@), cm)) && e
                    == Error::InvalidClass,
            },
    {
        let (max_stack, p) = read_u16(s, 0)?;
        let (max_locals, p) = read_u16(s, p)?;
        let (code_length, p) = read_u32(s, p)?;
        let (code_bytes, p) = read_bytes(s, p, code_length as usize)?;
        let code = decode_code(code_bytes.as_slice())?;
        let (exception_table, p) = parse_exception_table(s, p)?;
        let (attributes, _) = parse_attributes(s, p, pool)?;
        Ok(Code { max_stack, max_locals, code, exception_table, attributes })
    }
}

} // verus!
