//! The constant pool: typed entries addressed by 1-based index, and their
//! binary form.
//!
//! Each entry is a tag byte followed by a tag-specific payload. Text
//! entries are length-prefixed and must hold well-formed UTF-8; they are
//! kept as byte vectors. `Float` and `Double` entries keep the raw
//! IEEE-754 bits read from the stream.

use vstd::prelude::*;
use crate::error::Error;
use crate::reader::{be16, be32, be64, read_u8, read_u16, read_i32, read_i64, read_u32, read_u64,
    read_bytes};
use crate::utf8::valid_utf8;
use crate::utf8::validate_utf8;

verus! {

/// One constant-pool entry. Indices stored inside an entry are themselves
/// 1-based constant-pool indices.
#[derive(Clone, Debug, PartialEq)]
pub enum Constant {
    Class { name_index: u16 },
    FieldRef { class_index: u16, name_and_type_index: u16 },
    MethodRef { class_index: u16, name_and_type_index: u16 },
    InterfaceMethodRef { class_index: u16, name_and_type_index: u16 },
    String { string_index: u16 },
    Integer(i32),
    Float(u32),
    Double(u64),
    Long(i64),
    NameAndType { name_index: u16, descriptor_index: u16 },
    Utf8(Vec<u8>),
    MethodHandle { reference_kind: u8, reference_index: u16 },
    MethodType { descriptor_index: u16 },
    Dynamic { bootstrap_method_attr_index: u16, name_and_type_index: u16 },
    InvokeDynamic { bootstrap_method_attr_index: u16, name_and_type_index: u16 },
    Module { name_index: u16 },
    Package { name_index: u16 },
}

/// The mathematical model of a [`Constant`].
pub ghost enum ConstantModel {
    Class { name_index: u16 },
    FieldRef { class_index: u16, name_and_type_index: u16 },
    MethodRef { class_index: u16, name_and_type_index: u16 },
    InterfaceMethodRef { class_index: u16, name_and_type_index: u16 },
    String { string_index: u16 },
    Integer(i32),
    Float(u32),
    Double(u64),
    Long(i64),
    NameAndType { name_index: u16, descriptor_index: u16 },
    Utf8(Seq<u8>),
    MethodHandle { reference_kind: u8, reference_index: u16 },
    MethodType { descriptor_index: u16 },
    Dynamic { bootstrap_method_attr_index: u16, name_and_type_index: u16 },
    InvokeDynamic { bootstrap_method_attr_index: u16, name_and_type_index: u16 },
    Module { name_index: u16 },
    Package { name_index: u16 },
}

impl View for Constant {
    type V = ConstantModel;

    open spec fn view(&self) -> ConstantModel {
        match self {
            Constant::Class { name_index } => ConstantModel::Class { name_index: *name_index },
            Constant::FieldRef { class_index, name_and_type_index } => ConstantModel::FieldRef {
                class_index: *class_index,
                name_and_type_index: *name_and_type_index,
            },
            Constant::MethodRef { class_index, name_and_type_index } => ConstantModel::MethodRef {
                class_index: *class_index,
                name_and_type_index: *name_and_type_index,
            },
            Constant::InterfaceMethodRef {
                class_index,
                name_and_type_index,
            } => ConstantModel::InterfaceMethodRef {
                class_index: *class_index,
                name_and_type_index: *name_and_type_index,
            },
            Constant::String { string_index } => ConstantModel::String {
                string_index: *string_index,
            },
            Constant::Integer(v) => ConstantModel::Integer(*v),
            Constant::Float(v) => ConstantModel::Float(*v),
            Constant::Double(v) => ConstantModel::Double(*v),
            Constant::Long(v) => ConstantModel::Long(*v),
            Constant::NameAndType { name_index, descriptor_index } => ConstantModel::NameAndType {
                name_index: *name_index,
                descriptor_index: *descriptor_index,
            },
            Constant::Utf8(b) => ConstantModel::Utf8(b@),
            Constant::MethodHandle {
                reference_kind,
                reference_index,
            } => ConstantModel::MethodHandle {
                reference_kind: *reference_kind,
                reference_index: *reference_index,
            },
            Constant::MethodType { descriptor_index } => ConstantModel::MethodType {
                descriptor_index: *descriptor_index,
            },
            Constant::Dynamic {
                bootstrap_method_attr_index,
                name_and_type_index,
            } => ConstantModel::Dynamic {
                bootstrap_method_attr_index: *bootstrap_method_attr_index,
                name_and_type_index: *name_and_type_index,
            },
            Constant::InvokeDynamic {
                bootstrap_method_attr_index,
                name_and_type_index,
            } => ConstantModel::InvokeDynamic {
                bootstrap_method_attr_index: *bootstrap_method_attr_index,
                name_and_type_index: *name_and_type_index,
            },
            Constant::Module { name_index } => ConstantModel::Module { name_index: *name_index },
            Constant::Package { name_index } => ConstantModel::Package { name_index: *name_index },
        }
    }
}

/// The view of a whole pool.
pub open spec fn pool_model(pool: Seq<Constant>) -> Seq<ConstantModel> {
    pool.map_values(|c: Constant| c@)
}

/// The constant entry encoded at `pos`: the entry and the position just
/// past it, or `None` when the bytes are malformed there.
pub open spec fn spec_parse_constant(s: Seq<u8>, pos: int) -> Option<(ConstantModel, int)> {
    if pos + 1 > s.len() {
        None
    } else {
        let tag = s[pos];
        if tag == 7 {
            if pos + 3 <= s.len() {
                Some((ConstantModel::Class { name_index: be16(s, pos + 1) }, pos + 3))
            } else {
                None
            }
        } else if tag == 9 {
            if pos + 5 <= s.len() {
                Some(
                    (
                        ConstantModel::FieldRef {
                            class_index: be16(s, pos + 1),
                            name_and_type_index: be16(s, pos + 3),
                        },
                        pos + 5,
                    ),
                )
            } else {
                None
            }
        } else if tag == 10 {
            if pos + 5 <= s.len() {
                Some(
                    (
                        ConstantModel::MethodRef {
                            class_index: be16(s, pos + 1),
                            name_and_type_index: be16(s, pos + 3),
                        },
                        pos + 5,
                    ),
                )
            } else {
                None
            }
        } else if tag == 11 {
            if pos + 5 <= s.len() {
                Some(
                    (
                        ConstantModel::InterfaceMethodRef {
                            class_index: be16(s, pos + 1),
                            name_and_type_index: be16(s, pos + 3),
                        },
                        pos + 5,
                    ),
                )
            } else {
                None
            }
        } else if tag == 8 {
            if pos + 3 <= s.len() {
                Some((ConstantModel::String { string_index: be16(s, pos + 1) }, pos + 3))
            } else {
                None
            }
        } else if tag == 3 {
            if pos + 5 <= s.len() {
                Some((ConstantModel::Integer(be32(s, pos + 1) as i32), pos + 5))
            } else {
                None
            }
        } else if tag == 4 {
            if pos + 5 <= s.len() {
                Some((ConstantModel::Float(be32(s, pos + 1)), pos + 5))
            } else {
                None
            }
        } else if tag == 5 {
            if pos + 9 <= s.len() {
                Some((ConstantModel::Long(be64(s, pos + 1) as i64), pos + 9))
            } else {
                None
            }
        } else if tag == 6 {
            if pos + 9 <= s.len() {
                Some((ConstantModel::Double(be64(s, pos + 1)), pos + 9))
            } else {
                None
            }
        } else if tag == 12 {
            if pos + 5 <= s.len() {
                Some(
                    (
                        ConstantModel::NameAndType {
                            name_index: be16(s, pos + 1),
                            descriptor_index: be16(s, pos + 3),
                        },
                        pos + 5,
                    ),
                )
            } else {
                None
            }
        } else if tag == 1 {
            if pos + 3 <= s.len() {
                let n = be16(s, pos + 1) as int;
                if pos + 3 + n <= s.len() && valid_utf8(s.subrange(pos + 3, pos + 3 + n)) {
                    Some((ConstantModel::Utf8(s.subrange(pos + 3, pos + 3 + n)), pos + 3 + n))
                } else {
                    None
                }
            } else {
                None
            }
        } else if tag == 15 {
            if pos + 4 <= s.len() {
                Some(
                    (
                        ConstantModel::MethodHandle {
                            reference_kind: s[pos + 1],
                            reference_index: be16(s, pos + 2),
                        },
                        pos + 4,
                    ),
                )
            } else {
                None
            }
        } else if tag == 16 {
            if pos + 3 <= s.len() {
                Some((ConstantModel::MethodType { descriptor_index: be16(s, pos + 1) }, pos + 3))
            } else {
                None
            }
        } else if tag == 17 {
            if pos + 5 <= s.len() {
                Some(
                    (
                        ConstantModel::Dynamic {
                            bootstrap_method_attr_index: be16(s, pos + 1),
                            name_and_type_index: be16(s, pos + 3),
                        },
                        pos + 5,
                    ),
                )
            } else {
                None
            }
        } else if tag == 18 {
            if pos + 5 <= s.len() {
                Some(
                    (
                        ConstantModel::InvokeDynamic {
                            bootstrap_method_attr_index: be16(s, pos + 1),
                            name_and_type_index: be16(s, pos + 3),
                        },
                        pos + 5,
                    ),
                )
            } else {
                None
            }
        } else if tag == 19 {
            if pos + 3 <= s.len() {
                Some((ConstantModel::Module { name_index: be16(s, pos + 1) }, pos + 3))
            } else {
                None
            }
        } else if tag == 20 {
            if pos + 3 <= s.len() {
                Some((ConstantModel::Package { name_index: be16(s, pos + 1) }, pos + 3))
            } else {
                None
            }
        } else {
            None
        }
    }
}

/// `n` consecutive constant entries starting at `pos`.
pub open spec fn spec_parse_constants(s: Seq<u8>, pos: int, n: nat) -> Option<
    (Seq<ConstantModel>, int),
>
    decreases n,
{
    if n == 0 {
        Some((Seq::empty(), pos))
    } else {
        match spec_parse_constant(s, pos) {
            None => None,
            Some((c, p2)) => match spec_parse_constants(s, p2, (n - 1) as nat) {
                None => None,
                Some((rest, end)) => Some((seq![c] + rest, end)),
            },
        }
    }
}

/// The whole constant pool at `pos`: a 16-bit count stored as N+1,
/// followed by exactly N entries.
pub open spec fn spec_parse_constant_pool(s: Seq<u8>, pos: int) -> Option<
    (Seq<ConstantModel>, int),
> {
    if pos + 2 <= s.len() && be16(s, pos) >= 1 {
        spec_parse_constants(s, pos + 2, (be16(s, pos) - 1) as nat)
    } else {
        None
    }
}

impl Constant {
    /// Decodes the single constant entry at `pos`.
    pub fn from_bytes(s: &[u8], pos: usize) -> (r: Result<(Constant, usize), Error>)
        ensures
            match r {
                Ok(v) => spec_parse_constant(s@, pos as int) == Some((v.0@, v.1 as int)),
                Err(e) => spec_parse_constant(s@, pos as int) is None && e == Error::InvalidClass,
            },
    {
        let (tag, p) = match read_u8(s, pos) {
            Ok(v) => v,
            Err(e) => { return Err(e); },
        };
        match tag {
            7 => {
                let (name_index, p) = read_u16(s, p)?;
                Ok((Constant::Class { name_index }, p))
            },
            9 => {
                let (class_index, p) = read_u16(s, p)?;
                let (name_and_type_index, p) = read_u16(s, p)?;
                Ok((Constant::FieldRef { class_index, name_and_type_index }, p))
            },
            10 => {
                let (class_index, p) = read_u16(s, p)?;
                let (name_and_type_index, p) = read_u16(s, p)?;
                Ok((Constant::MethodRef { class_index, name_and_type_index }, p))
            },
            11 => {
                let (class_index, p) = read_u16(s, p)?;
                let (name_and_type_index, p) = read_u16(s, p)?;
                Ok((Constant::InterfaceMethodRef { class_index, name_and_type_index }, p))
            },
            8 => {
                let (string_index, p) = read_u16(s, p)?;
                Ok((Constant::String { string_index }, p))
            },
            3 => {
                let (v, p) = read_i32(s, p)?;
                Ok((Constant::Integer(v), p))
            },
            4 => {
                let (v, p) = read_u32(s, p)?;
                Ok((Constant::Float(v), p))
            },
            5 => {
                let (v, p) = read_i64(s, p)?;
                Ok((Constant::Long(v), p))
            },
            6 => {
                let (v, p) = read_u64(s, p)?;
                Ok((Constant::Double(v), p))
            },
            12 => {
                let (name_index, p) = read_u16(s, p)?;
                let (descriptor_index, p) = read_u16(s, p)?;
                Ok((Constant::NameAndType { name_index, descriptor_index }, p))
            },
            1 => {
                let (len, p) = read_u16(s, p)?;
                let (buf, p) = read_bytes(s, p, len as usize)?;
                if !validate_utf8(buf.as_slice()) {
                    return Err(Error::InvalidClass);
                }
                Ok((Constant::Utf8(buf), p))
            },
            15 => {
                let (reference_kind, p) = read_u8(s, p)?;
                let (reference_index, p) = read_u16(s, p)?;
                Ok((Constant::MethodHandle { reference_kind, reference_index }, p))
            },
            16 => {
                let (descriptor_index, p) = read_u16(s, p)?;
                Ok((Constant::MethodType { descriptor_index }, p))
            },
            17 => {
                let (bootstrap_method_attr_index, p) = read_u16(s, p)?;
                let (name_and_type_index, p) = read_u16(s, p)?;
                Ok((Constant::Dynamic { bootstrap_method_attr_index, name_and_type_index }, p))
            },
            18 => {
                let (bootstrap_method_attr_index, p) = read_u16(s, p)?;
                let (name_and_type_index, p) = read_u16(s, p)?;
                Ok(
                    (
                        Constant::InvokeDynamic {
                            bootstrap_method_attr_index,
                            name_and_type_index,
                        },
                        p,
                    ),
                )
            },
            19 => {
                let (name_index, p) = read_u16(s, p)?;
                Ok((Constant::Module { name_index }, p))
            },
            20 => {
                let (name_index, p) = read_u16(s, p)?;
                Ok((Constant::Package { name_index }, p))
            },
            _ => Err(Error::InvalidClass),
        }
    }
}

/// Prefixes a parsed-entries outcome with already-parsed entries.
pub open spec fn spec_prepend(pre: Seq<ConstantModel>, r: Option<(Seq<ConstantModel>, int)>) -> Option<
    (Seq<ConstantModel>, int),
> {
    match r {
        None => None,
        Some((rest, end)) => Some((pre + rest, end)),
    }
}

/// Decodes the constant pool at `pos`: the count word, then exactly
/// count minus one entries.
pub fn parse_constants(s: &[u8], pos: usize) -> (r: Result<(Vec<Constant>, usize), Error>)
    ensures
        match r {
            Ok(v) => spec_parse_constant_pool(s@, pos as int) == Some(
                (pool_model(v.0@), v.1 as int),
            ),
            Err(e) => spec_parse_constant_pool(s@, pos as int) is None && e == Error::InvalidClass,
        },
{
    let (count, p0) = read_u16(s, pos)?;
    if count == 0 {
        return Err(Error::InvalidClass);
    }
    let n: usize = (count - 1) as usize;
    let mut out: Vec<Constant> = Vec::new();
    let mut cur: usize = p0;
    let mut i: usize = 0;
    proof {
        assert(pool_model(out@) =~= Seq::<ConstantModel>::empty());
    }
    while i < n
        invariant
            i <= n,
            pos + 2 <= s@.len(),
            p0 == pos + 2,
            count == be16(s@, pos as int),
            count >= 1,
            n == count - 1,
            spec_parse_constants(s@, p0 as int, n as nat) == spec_prepend(
                pool_model(out@),
                spec_parse_constants(s@, cur as int, (n - i) as nat),
            ),
        decreases n - i,
    {
        let (c, p2) = match Constant::from_bytes(s, cur) {
            Ok(v) => v,
            Err(e) => {
                proof {
                    assert(spec_parse_constants(s@, cur as int, (n - i) as nat) is None);
                }
                return Err(e);
            },
        };
        proof {
            let rest_n = (n - i) as nat;
            assert(spec_parse_constants(s@, cur as int, rest_n) == spec_prepend(
                seq![c@],
                spec_parse_constants(s@, p2 as int, (rest_n - 1) as nat),
            ));
        }
        let ghost old_out = out@;
        out.push(c);
        proof {
            assert(pool_model(out@) =~= pool_model(old_out).push(c@));
            assert(forall|rest: Seq<ConstantModel>|
                (pool_model(old_out) + (seq![c@] + rest)) =~= (pool_model(old_out).push(c@)
                    + rest));
        }
        cur = p2;
        i = i + 1;
    }
    proof {
        assert(spec_parse_constants(s@, cur as int, 0) == Some(
            (Seq::<ConstantModel>::empty(), cur as int),
        ));
        assert(pool_model(out@) + Seq::<ConstantModel>::empty() =~= pool_model(out@));
    }
    Ok((out, cur))
}

} // verus!
