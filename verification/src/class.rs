//! The class model: attributes, fields, methods, and the class itself,
//! with the binary class-file parser and member lookup.
//!
//! Names and descriptors are byte strings resolved out of the constant
//! pool at parse time. Parsed fields and methods are split into static
//! and instance groups, preserving declaration order within each group,
//! and one zero-initialized value cell is allocated per static field.

use vstd::prelude::*;
use crate::code::{Code, CodeModel, code_attr_parsed};
use crate::constant::{Constant, ConstantModel, pool_model, spec_parse_constant_pool,
    parse_constants};
use crate::error::Error;
use crate::reader::{be16, be32, read_u16, read_u32, read_bytes, bytes_eq};
use crate::value::Value;

verus! {

/// The `Static` bit of a field's or method's access flags.
pub const ACC_STATIC: u16 = 0x0008;

/// A generic attribute record: a name resolved from the constant pool and
/// an opaque byte payload (interpreted only where a specific attribute,
/// such as `Code`, is decoded).
#[derive(Debug)]
pub struct Attribute {
    pub name: Vec<u8>,
    pub info: Vec<u8>,
}

/// The mathematical model of an [`Attribute`].
#[verifier::ext_equal]
pub ghost struct AttributeModel {
    pub name: Seq<u8>,
    pub info: Seq<u8>,
}

impl View for Attribute {
    type V = AttributeModel;

    open spec fn view(&self) -> AttributeModel {
        AttributeModel { name: self.name@, info: self.info@ }
    }
}

/// The view of an attribute list.
pub open spec fn attrs_model(v: Seq<Attribute>) -> Seq<AttributeModel> {
    v.map_values(|a: Attribute| a@)
}

/// The constant at 1-based index `n`; index 0 and out-of-range indices
/// are invalid.
pub open spec fn spec_constant_at(pool: Seq<ConstantModel>, n: int) -> Option<ConstantModel> {
    if 1 <= n <= pool.len() {
        Some(pool[n - 1])
    } else {
        None
    }
}

/// The text constant at 1-based index `n`, when that entry is `Utf8`.
pub open spec fn spec_utf8_at(pool: Seq<ConstantModel>, n: int) -> Option<Seq<u8>> {
    match spec_constant_at(pool, n) {
        Some(ConstantModel::Utf8(b)) => Some(b),
        _ => None,
    }
}

/// The attribute record at `pos`: name index, 32-bit payload length, and
/// the payload bytes. The name index must resolve to a text constant.
pub open spec fn spec_parse_attribute(s: Seq<u8>, pos: int, pool: Seq<ConstantModel>) -> Option<
    (AttributeModel, int),
> {
    if pos + 6 <= s.len() {
        let name_index = be16(s, pos) as int;
        let len = be32(s, pos + 2) as int;
        if pos + 6 + len <= s.len() {
            match spec_utf8_at(pool, name_index) {
                Some(name) => Some(
                    (AttributeModel { name, info: s.subrange(pos + 6, pos + 6 + len) }, pos + 6
                        + len),
                ),
                None => None,
            }
        } else {
            None
        }
    } else {
        None
    }
}

/// `n` consecutive attribute records starting at `pos`.
pub open spec fn spec_parse_attributes(
    s: Seq<u8>,
    pos: int,
    pool: Seq<ConstantModel>,
    n: nat,
) -> Option<(Seq<AttributeModel>, int)>
    decreases n,
{
    if n == 0 {
        Some((Seq::empty(), pos))
    } else {
        match spec_parse_attribute(s, pos, pool) {
            None => None,
            Some((a, p2)) => match spec_parse_attributes(s, p2, pool, (n - 1) as nat) {
                None => None,
                Some((rest, end)) => Some((seq![a] + rest, end)),
            },
        }
    }
}

/// A 16-bit count followed by that many attribute records.
pub open spec fn spec_parse_attribute_list(s: Seq<u8>, pos: int, pool: Seq<ConstantModel>) -> Option<
    (Seq<AttributeModel>, int),
> {
    if pos + 2 <= s.len() {
        spec_parse_attributes(s, pos + 2, pool, be16(s, pos) as nat)
    } else {
        None
    }
}

/// Looks up the constant at 1-based index `n`, requiring a text entry.
fn utf8_at(pool: &Vec<Constant>, n: usize) -> (r: Result<Vec<u8>, Error>)
    ensures
        match r {
            Ok(b) => spec_utf8_at(pool_model(pool@), n as int) == Some(b@),
            Err(e) => spec_utf8_at(pool_model(pool@), n as int) is None && e
                == Error::InvalidClass,
        },
{
    if n >= 1 && n <= pool.len() {
        match &pool[n - 1] {
            Constant::Utf8(b) => {
                let mut out: Vec<u8> = Vec::new();
                let mut i: usize = 0;
                while i < b.len()
                    invariant
                        i <= b@.len(),
                        out@ == b@.subrange(0, i as int),
                    decreases b@.len() - i,
                {
                    out.push(b[i]);
                    i = i + 1;
                    proof {
                        assert(out@ =~= b@.subrange(0, i as int));
                    }
                }
                proof {
                    assert(out@ =~= b@);
                }
                Ok(out)
            },
            _ => Err(Error::InvalidClass),
        }
    } else {
        Err(Error::InvalidClass)
    }
}

impl Attribute {
    /// Decodes one attribute record at `pos`.
    #[verifier::loop_isolation(false)]
    pub fn from_bytes(s: &[u8], pos: usize, pool: &Vec<Constant>) -> (r: Result<
        (Attribute, usize),
        Error,
    >)
        ensures
            match r {
                Ok(v) => spec_parse_attribute(s@, pos as int, pool_model(pool@)) == Some(
                    (v.0@, v.1 as int),
                ),
                Err(e) => spec_parse_attribute(s@, pos as int, pool_model(pool@)) is None && e
                    == Error::InvalidClass,
            },
    {
        let (name_index, p) = read_u16(s, pos)?;
        let (len, p) = read_u32(s, p)?;
        let (info, p) = read_bytes(s, p, len as usize)?;
        let name = utf8_at(pool, name_index as usize)?;
        Ok((Attribute { name, info }, p))
    }

    /// Decodes a 16-bit count followed by that many attribute records.
    pub fn parse_list(s: &[u8], pos: usize, pool: &Vec<Constant>) -> (r: Result<
        (Vec<Attribute>, usize),
        Error,
    >)
        ensures
            match r {
                Ok(v) => spec_parse_attribute_list(s@, pos as int, pool_model(pool@)) == Some(
                    (attrs_model(v.0@), v.1 as int),
                ),
                Err(e) => spec_parse_attribute_list(s@, pos as int, pool_model(pool@)) is None && e
                    == Error::InvalidClass,
            },
    {
        parse_attributes(s, pos, pool)
    }
}

/// Prefixes a parsed-attributes outcome with already-parsed records.
pub open spec fn spec_prepend_attrs(
    pre: Seq<AttributeModel>,
    r: Option<(Seq<AttributeModel>, int)>,
) -> Option<(Seq<AttributeModel>, int)> {
    match r {
        None => None,
        Some((rest, end)) => Some((pre + rest, end)),
    }
}

/// Decodes an attribute list: count word, then that many records.
#[verifier::loop_isolation(false)]
pub fn parse_attributes(s: &[u8], pos: usize, pool: &Vec<Constant>) -> (r: Result<
    (Vec<Attribute>, usize),
    Error,
>)
    ensures
        match r {
            Ok(v) => spec_parse_attribute_list(s@, pos as int, pool_model(pool@)) == Some(
                (attrs_model(v.0@), v.1 as int),
            ),
            Err(e) => spec_parse_attribute_list(s@, pos as int, pool_model(pool@)) is None && e
                == Error::InvalidClass,
        },
{
    let ghost pm = pool_model(pool@);
    let (count, p0) = read_u16(s, pos)?;
    let n: usize = count as usize;
    let mut out: Vec<Attribute> = Vec::new();
    let mut cur: usize = p0;
    let mut i: usize = 0;
    proof {
        assert(attrs_model(out@) =~= Seq::<AttributeModel>::empty());
    }
    while i < n
        invariant
            i <= n,
            spec_parse_attributes(s@, p0 as int, pm, n as nat) == spec_prepend_attrs(
                attrs_model(out@),
                spec_parse_attributes(s@, cur as int, pm, (n - i) as nat),
            ),
        decreases n - i,
    {
        let (a, p2) = match Attribute::from_bytes(s, cur, pool) {
            Ok(v) => v,
            Err(e) => {
                return Err(e);
            },
        };
        let ghost old_out = out@;
        out.push(a);
        proof {
            assert(attrs_model(out@) =~= attrs_model(old_out).push(out@[out@.len() - 1]@));
            assert(forall|rest: Seq<AttributeModel>|
                (attrs_model(old_out) + (seq![out@[out@.len() - 1]@] + rest)) =~= (attrs_model(
                    out@,
                ) + rest));
        }
        cur = p2;
        i = i + 1;
    }
    proof {
        assert(attrs_model(out@) + Seq::<AttributeModel>::empty() =~= attrs_model(out@));
    }
    Ok((out, cur))
}

/// A field: name, type descriptor, access flags, attributes. Name and
/// descriptor together identify the field within its group.
#[derive(Debug)]
pub struct Field {
    pub name: Vec<u8>,
    pub typ: Vec<u8>,
    pub access: u16,
    pub attributes: Vec<Attribute>,
}

/// The mathematical model of a [`Field`]; also the model of a method
/// record before its `Code` attribute is decoded (the two share one
/// binary layout, with `typ` holding the method descriptor).
#[verifier::ext_equal]
pub ghost struct FieldModel {
    pub name: Seq<u8>,
    pub typ: Seq<u8>,
    pub access: u16,
    pub attributes: Seq<AttributeModel>,
}

impl View for Field {
    type V = FieldModel;

    open spec fn view(&self) -> FieldModel {
        FieldModel {
            name: self.name@,
            typ: self.typ@,
            access: self.access,
            attributes: attrs_model(self.attributes@),
        }
    }
}

/// The view of a field list.
pub open spec fn fields_model(v: Seq<Field>) -> Seq<FieldModel> {
    v.map_values(|f: Field| f@)
}

/// The static bit of an access-flags word.
pub open spec fn spec_is_static(access: u16) -> bool {
    access & ACC_STATIC != 0
}

/// A member record at `pos`: access flags, name index, descriptor index,
/// then an attribute list. Both indices must resolve to text constants.
pub open spec fn spec_parse_field(s: Seq<u8>, pos: int, pool: Seq<ConstantModel>) -> Option<
    (FieldModel, int),
> {
    if pos + 6 <= s.len() {
        let access = be16(s, pos);
        match (spec_utf8_at(pool, be16(s, pos + 2) as int), spec_utf8_at(
            pool,
            be16(s, pos + 4) as int,
        )) {
            (Some(name), Some(typ)) => match spec_parse_attribute_list(s, pos + 6, pool) {
                Some((attributes, end)) => Some((FieldModel { name, typ, access, attributes }, end)),
                None => None,
            },
            _ => None,
        }
    } else {
        None
    }
}

/// `n` consecutive member records starting at `pos`.
pub open spec fn spec_parse_fields(s: Seq<u8>, pos: int, pool: Seq<ConstantModel>, n: nat) -> Option<
    (Seq<FieldModel>, int),
>
    decreases n,
{
    if n == 0 {
        Some((Seq::empty(), pos))
    } else {
        match spec_parse_field(s, pos, pool) {
            None => None,
            Some((f, p2)) => match spec_parse_fields(s, p2, pool, (n - 1) as nat) {
                None => None,
                Some((rest, end)) => Some((seq![f] + rest, end)),
            },
        }
    }
}

/// A 16-bit count followed by that many member records.
pub open spec fn spec_parse_field_list(s: Seq<u8>, pos: int, pool: Seq<ConstantModel>) -> Option<
    (Seq<FieldModel>, int),
> {
    if pos + 2 <= s.len() {
        spec_parse_fields(s, pos + 2, pool, be16(s, pos) as nat)
    } else {
        None
    }
}

impl Field {
    /// Whether the `Static` access bit is set.
    pub fn is_static(&self) -> (r: bool)
        ensures
            r == spec_is_static(self@.access),
    {
        self.access & ACC_STATIC != 0
    }

    /// Decodes one field record at `pos`.
    pub fn from_bytes(s: &[u8], pos: usize, pool: &Vec<Constant>) -> (r: Result<
        (Field, usize),
        Error,
    >)
        ensures
            match r {
                Ok(v) => spec_parse_field(s@, pos as int, pool_model(pool@)) == Some(
                    (v.0@, v.1 as int),
                ),
                Err(e) => spec_parse_field(s@, pos as int, pool_model(pool@)) is None && e
                    == Error::InvalidClass,
            },
    {
        let (access, p) = read_u16(s, pos)?;
        let (name_index, p) = read_u16(s, p)?;
        let (descriptor_index, p) = read_u16(s, p)?;
        let name = utf8_at(pool, name_index as usize)?;
        let typ = utf8_at(pool, descriptor_index as usize)?;
        let (attributes, p) = parse_attributes(s, p, pool)?;
        Ok((Field { name, typ, access, attributes }, p))
    }
}

/// Prefixes a parsed-members outcome with already-parsed records.
pub open spec fn spec_prepend_fields(pre: Seq<FieldModel>, r: Option<(Seq<FieldModel>, int)>) -> Option<
    (Seq<FieldModel>, int),
> {
    match r {
        None => None,
        Some((rest, end)) => Some((pre + rest, end)),
    }
}

/// Decodes a field list: count word, then that many records.
#[verifier::loop_isolation(false)]
pub fn parse_fields(s: &[u8], pos: usize, pool: &Vec<Constant>) -> (r: Result<
    (Vec<Field>, usize),
    Error,
>)
    ensures
        match r {
            Ok(v) => spec_parse_field_list(s@, pos as int, pool_model(pool@)) == Some(
                (fields_model(v.0@), v.1 as int),
            ),
            Err(e) => spec_parse_field_list(s@, pos as int, pool_model(pool@)) is None && e
                == Error::InvalidClass,
        },
{
    let ghost pm = pool_model(pool@);
    let (count, p0) = read_u16(s, pos)?;
    let n: usize = count as usize;
    let mut out: Vec<Field> = Vec::new();
    let mut cur: usize = p0;
    let mut i: usize = 0;
    proof {
        assert(fields_model(out@) =~= Seq::<FieldModel>::empty());
    }
    while i < n
        invariant
            i <= n,
            spec_parse_fields(s@, p0 as int, pm, n as nat) == spec_prepend_fields(
                fields_model(out@),
                spec_parse_fields(s@, cur as int, pm, (n - i) as nat),
            ),
        decreases n - i,
    {
        let (f, p2) = match Field::from_bytes(s, cur, pool) {
            Ok(v) => v,
            Err(e) => {
                return Err(e);
            },
        };
        let ghost old_out = out@;
        out.push(f);
        proof {
            assert(fields_model(out@) =~= fields_model(old_out).push(out@[out@.len() - 1]@));
            assert(forall|rest: Seq<FieldModel>|
                (fields_model(old_out) + (seq![out@[out@.len() - 1]@] + rest)) =~= (fields_model(
                    out@,
                ) + rest));
        }
        cur = p2;
        i = i + 1;
    }
    proof {
        assert(fields_model(out@) + Seq::<FieldModel>::empty() =~= fields_model(out@));
    }
    Ok((out, cur))
}

/// The interface list at `pos`: a 16-bit count then that many 16-bit
/// constant-pool indices.
pub open spec fn spec_parse_interfaces(s: Seq<u8>, pos: int) -> Option<(Seq<u16>, int)> {
    if pos + 2 <= s.len() {
        let n = be16(s, pos) as int;
        if pos + 2 + 2 * n <= s.len() {
            Some((Seq::new(n as nat, |k: int| be16(s, pos + 2 + 2 * k)), pos + 2 + 2 * n))
        } else {
            None
        }
    } else {
        None
    }
}

/// Decodes the interface index list at `pos`.
#[verifier::loop_isolation(false)]
pub fn parse_interfaces(s: &[u8], pos: usize) -> (r: Result<(Vec<u16>, usize), Error>)
    ensures
        match r {
            Ok(v) => spec_parse_interfaces(s@, pos as int) == Some((v.0@, v.1 as int)),
            Err(e) => spec_parse_interfaces(s@, pos as int) is None && e == Error::InvalidClass,
        },
{
    let (n16, p0) = read_u16(s, pos)?;
    let n: usize = n16 as usize;
    if !crate::reader::has_bytes(s, p0, 2 * n) {
        return Err(Error::InvalidClass);
    }
    let slen: usize = s.len();
    let mut out: Vec<u16> = Vec::new();
    let mut k: usize = 0;
    while k < n
        invariant
            k <= n,
            out@ == Seq::new(k as nat, |j: int| be16(s@, p0 + 2 * j)),
        decreases n - k,
    {
        let (v, _) = match read_u16(s, p0 + 2 * k) {
            Ok(v) => v,
            Err(_) => {
                proof {
                    assert(false);
                }
                return Err(Error::InvalidClass);
            },
        };
        out.push(v);
        k = k + 1;
        proof {
            assert(out@ =~= Seq::new(k as nat, |j: int| be16(s@, p0 + 2 * j)));
        }
    }
    proof {
        assert(out@ =~= Seq::new(n as nat, |j: int| be16(s@, p0 + 2 * j)));
    }
    Ok((out, p0 + 2 * n))
}

/// A method: name, descriptor, access flags, attributes, and the decoded
/// `Code` attribute when one is present. A method with no code
/// (abstract or native) cannot be executed by this engine.
#[derive(Debug)]
pub struct Method {
    pub name: Vec<u8>,
    pub descriptor: Vec<u8>,
    pub access: u16,
    pub attributes: Vec<Attribute>,
    pub code: Option<Code>,
}

/// The mathematical model of a [`Method`].
#[verifier::ext_equal]
pub ghost struct MethodModel {
    pub name: Seq<u8>,
    pub descriptor: Seq<u8>,
    pub access: u16,
    pub attributes: Seq<AttributeModel>,
    pub code: Option<CodeModel>,
}

impl View for Method {
    type V = MethodModel;

    open spec fn view(&self) -> MethodModel {
        MethodModel {
            name: self.name@,
            descriptor: self.descriptor@,
            access: self.access,
            attributes: attrs_model(self.attributes@),
            code: match self.code {
                Some(c) => Some(c@),
                None => None,
            },
        }
    }
}

/// The view of a method list.
pub open spec fn methods_model(v: Seq<Method>) -> Seq<MethodModel> {
    v.map_values(|m: Method| m@)
}

/// The name of the attribute that carries a method's code.
pub open spec fn code_attr_name() -> Seq<u8> {
    seq![67u8, 111u8, 100u8, 101u8]
}

/// The first index at or after `k` of an attribute named `Code`.
pub open spec fn spec_code_attr_index(attrs: Seq<AttributeModel>, k: int) -> Option<int>
    decreases attrs.len() - k,
{
    if k < 0 || k >= attrs.len() {
        None
    } else if attrs[k].name == code_attr_name() {
        Some(k)
    } else {
        spec_code_attr_index(attrs, k + 1)
    }
}

/// `m` is the decoding of the method record at `pos`: the member record,
/// and — when an attribute named `Code` exists — the decoded code of the
/// first such attribute.
/// `m` is the decoding of the member record `raw`: same name, descriptor
/// and flags, with the first attribute named `Code`, if any, decoded.
pub open spec fn method_of_raw(raw: FieldModel, pool: Seq<ConstantModel>, m: MethodModel) -> bool {
    m.name == raw.name && m.descriptor == raw.typ && m.access == raw.access && m.attributes
        == raw.attributes && match spec_code_attr_index(raw.attributes, 0) {
        None => m.code is None,
        Some(i) => m.code matches Some(cm) && code_attr_parsed(raw.attributes[i].info, pool, cm),
    }
}

pub open spec fn method_parsed(
    s: Seq<u8>,
    pos: int,
    pool: Seq<ConstantModel>,
    m: MethodModel,
    end: int,
) -> bool {
    match spec_parse_field(s, pos, pool) {
        None => false,
        Some((raw, e)) => end == e && method_of_raw(raw, pool, m),
    }
}

/// Element-wise: `ms` decodes the member records `raws`.
pub open spec fn methods_match(
    raws: Seq<FieldModel>,
    pool: Seq<ConstantModel>,
    ms: Seq<MethodModel>,
) -> bool {
    ms.len() == raws.len() && forall|i: int|
        0 <= i < raws.len() ==> method_of_raw(raws[i], pool, #[trigger] ms[i])
}

/// Tests whether an attribute is named `Code`.
fn is_code_attr(a: &Attribute) -> (r: bool)
    ensures
        r == (a@.name == code_attr_name()),
{
    let r = a.name.len() == 4 && a.name[0] == 67 && a.name[1] == 111 && a.name[2] == 100
        && a.name[3] == 101;
    proof {
        if r {
            assert(a@.name =~= code_attr_name());
        } else {
            if a@.name.len() == 4 && a@.name[0] == 67 && a@.name[1] == 111 && a@.name[2] == 100
                && a@.name[3] == 101 {
                assert(false);
            }
            if a@.name == code_attr_name() {
                assert(a@.name.len() == 4 && a@.name[0] == 67);
                assert(false);
            }
        }
    }
    r
}

/// A found first `Code` attribute determines [`spec_code_attr_index`].
proof fn lemma_code_attr_index(attrs: Seq<AttributeModel>, k: int, i: int)
    requires
        0 <= k <= i <= attrs.len(),
        forall|j: int| k <= j < i ==> attrs[j].name != code_attr_name(),
        i < attrs.len() ==> attrs[i].name == code_attr_name(),
    ensures
        spec_code_attr_index(attrs, k) == if i < attrs.len() {
            Some(i)
        } else {
            None::<int>
        },
    decreases i - k,
{
    if k < i {
        lemma_code_attr_index(attrs, k + 1, i);
    }
}

impl Method {
    /// Whether the `Static` access bit is set.
    pub fn is_static(&self) -> (r: bool)
        ensures
            r == spec_is_static(self@.access),
    {
        self.access & ACC_STATIC != 0
    }

    /// Whether the method has code and so can be executed.
    pub fn has_code(&self) -> (r: bool)
        ensures
            r == (self@.code is Some),
    {
        self.code.is_some()
    }

    /// The local-slot bound of the method's code, when it has code.
    pub fn max_locals(&self) -> (r: Option<usize>)
        ensures
            match r {
                Some(n) => self@.code matches Some(c) && n == c.max_locals,
                None => self@.code is None,
            },
    {
        match &self.code {
            Some(c) => Some(c.max_locals as usize),
            None => None,
        }
    }

    /// The operand-stack bound of the method's code, when it has code.
    pub fn max_stack(&self) -> (r: Option<usize>)
        ensures
            match r {
                Some(n) => self@.code matches Some(c) && n == c.max_stack,
                None => self@.code is None,
            },
    {
        match &self.code {
            Some(c) => Some(c.max_stack as usize),
            None => None,
        }
    }

    /// The method's decoded code, when present.
    pub fn code(&self) -> (r: Option<&Code>)
        ensures
            match r {
                Some(c) => self@.code == Some(c@),
                None => self@.code is None,
            },
    {
        self.code.as_ref()
    }

    /// Decodes one method record at `pos`, including its `Code`
    /// attribute when one is present. Fails with `InvalidClass` exactly
    /// on the byte positions no method record decodes from.
    pub fn from_bytes(s: &[u8], pos: usize, pool: &Vec<Constant>) -> (r: Result<
        (Method, usize),
        Error,
    >)
        ensures
            match r {
                Ok(v) => method_parsed(s@, pos as int, pool_model(pool@), v.0@, v.1 as int),
                Err(e) => e == Error::InvalidClass && forall|m: MethodModel, end: int|
                    !method_parsed(s@, pos as int, pool_model(pool@), m, end),
            },
    {
        let ghost pm = pool_model(pool@);
        let (raw, p) = Field::from_bytes(s, pos, pool)?;
        let Field { name, typ, access, attributes } = raw;
        let mut i: usize = 0;
        let mut found: Option<usize> = None;
        while i < attributes.len()
            invariant
                i <= attributes@.len(),
                match found {
                    None => forall|j: int|
                        0 <= j < i ==> attrs_model(attributes@)[j].name != code_attr_name(),
                    Some(ci) => ci < i && attrs_model(attributes@)[ci as int].name
                        == code_attr_name() && forall|j: int|
                        0 <= j < ci ==> attrs_model(attributes@)[j].name != code_attr_name(),
                },
            decreases attributes@.len() - i,
        {
            if found.is_none() && is_code_attr(&attributes[i]) {
                found = Some(i);
            }
            i = i + 1;
        }
        let ghost am = attrs_model(attributes@);
        let code: Option<Code> = match found {
            Some(ci) => {
                proof {
                    lemma_code_attr_index(am, 0, ci as int);
                }
                let c = match Code::from_bytes(attributes[ci].info.as_slice(), pool) {
                    Ok(c) => c,
                    Err(e) => {
                        proof {
                            assert forall|m: MethodModel, end: int|
                                !method_parsed(s@, pos as int, pm, m, end) by {
                                if method_parsed(s@, pos as int, pm, m, end) {
                                    assert(spec_code_attr_index(am, 0) == Some(ci as int));
                                    assert(m.code matches Some(cm) && code_attr_parsed(
                                        am[ci as int].info,
                                        pm,
                                        cm,
                                    ));
                                }
                            }
                        }
                        return Err(e);
                    },
                };
                Some(c)
            },
            None => {
                proof {
                    lemma_code_attr_index(am, 0, am.len() as int);
                }
                None
            },
        };
        Ok((Method { name, descriptor: typ, access, attributes, code }, p))
    }
}

/// A class's intrinsic monitor, modeled as data: the owning thread, a
/// re-entry count, and the threads waiting to be notified. One monitor
/// exists per class.
#[derive(Debug)]
pub struct Monitor {
    pub owner: Option<usize>,
    pub depth: u64,
    pub waiters: Vec<usize>,
}

/// The mathematical model of a [`Monitor`].
#[verifier::ext_equal]
pub ghost struct MonitorModel {
    pub owner: Option<usize>,
    pub depth: u64,
    pub waiters: Seq<usize>,
}

impl View for Monitor {
    type V = MonitorModel;

    open spec fn view(&self) -> MonitorModel {
        MonitorModel { owner: self.owner, depth: self.depth, waiters: self.waiters@ }
    }
}

/// A monitor that nobody holds and nobody waits on.
pub open spec fn monitor_free() -> MonitorModel {
    MonitorModel { owner: None, depth: 0, waiters: Seq::empty() }
}

/// A discriminated index into a class's method groups: instance
/// (`Dynamic`) or static. The two groups are numbered independently.
#[derive(Clone, Copy, Debug, PartialEq, Eq, Structural)]
pub enum MethodIndex {
    Dynamic(usize),
    Static(usize),
}

/// A discriminated index into a class's field groups.
#[derive(Clone, Copy, Debug, PartialEq, Eq, Structural)]
pub enum FieldIndex {
    Dynamic(usize),
    Static(usize),
}

/// A loaded class: identity by name, the superclass by name (resolved
/// lazily through the registry), the constant pool, members split into
/// static and instance groups, one mutable value cell per static field,
/// and the intrinsic monitor.
#[derive(Debug)]
pub struct Class {
    pub name: Vec<u8>,
    pub superclass_name: Vec<u8>,
    pub constant_pool: Vec<Constant>,
    pub static_fields: Vec<Field>,
    pub static_values: Vec<Value>,
    pub static_methods: Vec<Method>,
    pub fields: Vec<Field>,
    pub methods: Vec<Method>,
    pub interfaces: Vec<u16>,
    pub attributes: Vec<Attribute>,
    pub monitor: Monitor,
}

/// The mathematical model of a [`Class`].
#[verifier::ext_equal]
pub ghost struct ClassModel {
    pub name: Seq<u8>,
    pub superclass_name: Seq<u8>,
    pub constant_pool: Seq<ConstantModel>,
    pub static_fields: Seq<FieldModel>,
    pub static_values: Seq<Value>,
    pub static_methods: Seq<MethodModel>,
    pub fields: Seq<FieldModel>,
    pub methods: Seq<MethodModel>,
    pub interfaces: Seq<u16>,
    pub attributes: Seq<AttributeModel>,
    pub monitor: MonitorModel,
}

impl View for Class {
    type V = ClassModel;

    open spec fn view(&self) -> ClassModel {
        ClassModel {
            name: self.name@,
            superclass_name: self.superclass_name@,
            constant_pool: pool_model(self.constant_pool@),
            static_fields: fields_model(self.static_fields@),
            static_values: self.static_values@,
            static_methods: methods_model(self.static_methods@),
            fields: fields_model(self.fields@),
            methods: methods_model(self.methods@),
            interfaces: self.interfaces@,
            attributes: attrs_model(self.attributes@),
            monitor: self.monitor@,
        }
    }
}

/// The class model `c` with its monitor replaced.
pub open spec fn class_with_monitor(c: ClassModel, m: MonitorModel) -> ClassModel {
    ClassModel {
        name: c.name,
        superclass_name: c.superclass_name,
        constant_pool: c.constant_pool,
        static_fields: c.static_fields,
        static_values: c.static_values,
        static_methods: c.static_methods,
        fields: c.fields,
        methods: c.methods,
        interfaces: c.interfaces,
        attributes: c.attributes,
        monitor: m,
    }
}

/// The class model `c` with its static value cells replaced.
pub open spec fn class_with_static_values(c: ClassModel, vals: Seq<Value>) -> ClassModel {
    ClassModel {
        name: c.name,
        superclass_name: c.superclass_name,
        constant_pool: c.constant_pool,
        static_fields: c.static_fields,
        static_values: vals,
        static_methods: c.static_methods,
        fields: c.fields,
        methods: c.methods,
        interfaces: c.interfaces,
        attributes: c.attributes,
        monitor: c.monitor,
    }
}

/// The name carried by the `Class` constant at 1-based index `idx`.
pub open spec fn spec_class_name_at(pool: Seq<ConstantModel>, idx: int) -> Option<Seq<u8>> {
    match spec_constant_at(pool, idx) {
        Some(ConstantModel::Class { name_index }) => spec_utf8_at(pool, name_index as int),
        _ => None,
    }
}

/// Resolves a `Class` constant to its name.
fn get_class_name(pool: &Vec<Constant>, idx: usize) -> (r: Result<Vec<u8>, Error>)
    ensures
        match r {
            Ok(b) => spec_class_name_at(pool_model(pool@), idx as int) == Some(b@),
            Err(e) => spec_class_name_at(pool_model(pool@), idx as int) is None && e
                == Error::InvalidClass,
        },
{
    if idx >= 1 && idx <= pool.len() {
        match &pool[idx - 1] {
            Constant::Class { name_index } => utf8_at(pool, *name_index as usize),
            _ => Err(Error::InvalidClass),
        }
    } else {
        Err(Error::InvalidClass)
    }
}

/// The static-group predicate on member records.
pub open spec fn static_member() -> spec_fn(FieldModel) -> bool {
    |f: FieldModel| spec_is_static(f.access)
}

/// The instance-group predicate on member records.
pub open spec fn instance_member() -> spec_fn(FieldModel) -> bool {
    |f: FieldModel| !spec_is_static(f.access)
}

/// Filtering distributes over appending one element.
proof fn lemma_filter_push<A>(s: Seq<A>, pred: spec_fn(A) -> bool, x: A)
    ensures
        s.push(x).filter(pred) == if pred(x) {
            s.filter(pred).push(x)
        } else {
            s.filter(pred)
        },
{
    reveal(Seq::filter);
    assert(s.push(x).drop_last() =~= s);
    assert(s.push(x).last() == x);
}

/// The magic number that opens every class file.
pub const CLASS_MAGIC: u32 = 0xCAFEBABE;

/// The single accepted major version.
pub const ACCEPTED_MAJOR: u16 = 64;

/// The single accepted minor version.
pub const ACCEPTED_MINOR: u16 = 0;

/// `c` is the parse of the class-file bytes `s`, accepting exactly the
/// given version pair: magic and version; constant pool; this-class and
/// super-class names; interfaces; fields split into the static and
/// instance groups in declaration order, with one zero-initialized value
/// cell per static field; methods split the same way; class attributes;
/// and a free monitor. Trailing bytes after the class attributes are
/// ignored.
pub open spec fn class_parsed_with_version(s: Seq<u8>, major: u16, minor: u16, c: ClassModel) -> bool {
    s.len() >= 10 && be32(s, 0) == CLASS_MAGIC && be16(s, 4) == minor && be16(s, 6) == major
        && match spec_parse_constant_pool(s, 8) {
        None => false,
        Some((pool, p1)) => c.constant_pool == pool && p1 + 6 <= s.len() && spec_class_name_at(
            pool,
            be16(s, p1 + 2) as int,
        ) == Some(c.name) && spec_class_name_at(pool, be16(s, p1 + 4) as int) == Some(
            c.superclass_name,
        ) && match spec_parse_interfaces(s, p1 + 6) {
            None => false,
            Some((ifs, p2)) => c.interfaces == ifs && match spec_parse_field_list(s, p2, pool) {
                None => false,
                Some((fs, p3)) => c.static_fields == fs.filter(static_member()) && c.fields
                    == fs.filter(instance_member()) && c.static_values == Seq::new(
                    c.static_fields.len(),
                    |i: int| Value::Int(0),
                ) && match spec_parse_field_list(s, p3, pool) {
                    None => false,
                    Some((raws, p4)) => methods_match(
                        raws.filter(static_member()),
                        pool,
                        c.static_methods,
                    ) && methods_match(raws.filter(instance_member()), pool, c.methods) && match
                        spec_parse_attribute_list(s, p4, pool) {
                        None => false,
                        Some((ats, _)) => c.attributes == ats && c.monitor == monitor_free(),
                    },
                },
            },
        },
    }
}

/// [`class_parsed_with_version`] at the accepted version pair.
pub open spec fn spec_class_parsed(s: Seq<u8>, c: ClassModel) -> bool {
    class_parsed_with_version(s, ACCEPTED_MAJOR, ACCEPTED_MINOR, c)
}

impl Class {
    /// Parses a class file, accepting exactly the version pair given.
    /// Any structural or referential malformation anywhere in the walk —
    /// wrong magic, another version, a truncated record, a bad constant
    /// chain, an undecodable code region — fails with `InvalidClass` and
    /// never produces a partially populated class.
    #[verifier::loop_isolation(false)]
    pub fn parse_with_version(s: &[u8], major: u16, minor: u16) -> (r: Result<Class, Error>)
        ensures
            match r {
                Ok(c) => class_parsed_with_version(s@, major, minor, c@),
                Err(e) => e == Error::InvalidClass && forall|c: ClassModel|
                    !class_parsed_with_version(s@, major, minor, c),
            },
    {
        let (magic, _) = read_u32(s, 0)?;
        if magic != CLASS_MAGIC {
            return Err(Error::InvalidClass);
        }
        let (got_minor, _) = read_u16(s, 4)?;
        let (got_major, _) = read_u16(s, 6)?;
        if got_major != major || got_minor != minor {
            return Err(Error::InvalidClass);
        }
        let (constant_pool, p1) = parse_constants(s, 8)?;
        let ghost pm = pool_model(constant_pool@);
        let (_access_flags, _) = read_u16(s, p1)?;
        let (this_class, _) = read_u16(s, p1 + 2)?;
        let (super_class, _) = read_u16(s, p1 + 4)?;
        let name = get_class_name(&constant_pool, this_class as usize)?;
        let superclass_name = get_class_name(&constant_pool, super_class as usize)?;
        let (interfaces, p2) = parse_interfaces(s, p1 + 6)?;
        let (all_fields, p3) = parse_fields(s, p2, &constant_pool)?;

        // split the fields into the static and instance groups
        let ghost raw_fields = fields_model(all_fields@);
        let mut rest = all_fields;
        let mut static_fields: Vec<Field> = Vec::new();
        let mut fields: Vec<Field> = Vec::new();
        let ghost mut seen: Seq<FieldModel> = Seq::empty();
        proof {
            assert(seen.filter(static_member()) =~= Seq::<FieldModel>::empty());
            assert(seen.filter(instance_member()) =~= Seq::<FieldModel>::empty());
            assert(fields_model(static_fields@) =~= Seq::<FieldModel>::empty());
            assert(fields_model(fields@) =~= Seq::<FieldModel>::empty());
            assert(seen + fields_model(rest@) =~= raw_fields);
        }
        while rest.len() > 0
            invariant
                seen + fields_model(rest@) == raw_fields,
                fields_model(static_fields@) == seen.filter(static_member()),
                fields_model(fields@) == seen.filter(instance_member()),
            decreases rest@.len(),
        {
            let ghost old_rest = rest@;
            let f = rest.remove(0);
            proof {
                assert(fields_model(old_rest)[0] == f@);
                assert(fields_model(rest@) =~= fields_model(old_rest).skip(1));
                lemma_filter_push(seen, static_member(), f@);
                lemma_filter_push(seen, instance_member(), f@);
            }
            let ghost old_statics = static_fields@;
            let ghost old_insts = fields@;
            if f.is_static() {
                static_fields.push(f);
                proof {
                    assert(fields_model(static_fields@) =~= fields_model(old_statics).push(
                        static_fields@[static_fields@.len() - 1]@,
                    ));
                }
            } else {
                fields.push(f);
                proof {
                    assert(fields_model(fields@) =~= fields_model(old_insts).push(
                        fields@[fields@.len() - 1]@,
                    ));
                }
            }
            proof {
                let ghost old_seen = seen;
                seen = seen.push(fields_model(old_rest)[0]);
                assert(seen + fields_model(rest@) =~= raw_fields);
            }
        }
        proof {
            assert(seen =~= raw_fields);
        }

        // one zero-initialized value cell per static field
        let mut static_values: Vec<Value> = Vec::new();
        let mut k: usize = 0;
        while k < static_fields.len()
            invariant
                k <= static_fields@.len(),
                static_values@ == Seq::new(k as nat, |i: int| Value::Int(0)),
            decreases static_fields@.len() - k,
        {
            static_values.push(Value::Int(0));
            k = k + 1;
            proof {
                assert(static_values@ =~= Seq::new(k as nat, |i: int| Value::Int(0)));
            }
        }
        proof {
            assert(static_values@ =~= Seq::new(
                fields_model(static_fields@).len(),
                |i: int| Value::Int(0),
            ));
        }

        // parse the method records, splitting as they come
        let (count, m0) = read_u16(s, p3)?;
        let n: usize = count as usize;
        let mut static_methods: Vec<Method> = Vec::new();
        let mut methods: Vec<Method> = Vec::new();
        let ghost mut raws: Seq<FieldModel> = Seq::empty();
        let mut cur: usize = m0;
        let mut i: usize = 0;
        proof {
            assert(raws.filter(static_member()) =~= Seq::<FieldModel>::empty());
            assert(raws.filter(instance_member()) =~= Seq::<FieldModel>::empty());
            assert(methods_model(static_methods@) =~= Seq::<MethodModel>::empty());
            assert(methods_model(methods@) =~= Seq::<MethodModel>::empty());
        }
        while i < n
            invariant
                i <= n,
                raws.len() == i,
                spec_parse_fields(s@, m0 as int, pm, n as nat) == spec_prepend_fields(
                    raws,
                    spec_parse_fields(s@, cur as int, pm, (n - i) as nat),
                ),
                methods_match(raws.filter(static_member()), pm, methods_model(static_methods@)),
                methods_match(raws.filter(instance_member()), pm, methods_model(methods@)),
            decreases n - i,
        {
            let (m, p2) = match Method::from_bytes(s, cur, &constant_pool) {
                Ok(v) => v,
                Err(e) => {
                    proof {
                        assert forall|c: ClassModel|
                            !class_parsed_with_version(s@, major, minor, c) by {
                            if class_parsed_with_version(s@, major, minor, c) {
                                let lst = spec_parse_field_list(s@, p3 as int, pm);
                                let (mraws, p4) = lst->Some_0;
                                let restr = spec_parse_fields(
                                    s@,
                                    cur as int,
                                    pm,
                                    (n - i) as nat,
                                )->Some_0;
                                assert(raws + restr.0 == mraws);
                                assert(mraws[i as int] == restr.0[0]);
                                let pnext = spec_parse_field(s@, cur as int, pm)->Some_0.1;
                                assert(spec_parse_field(s@, cur as int, pm) == Some(
                                    (mraws[i as int], pnext),
                                ));
                                if spec_is_static(mraws[i as int].access) {
                                    mraws.lemma_filter_contains(static_member(), i as int);
                                    let fl = mraws.filter(static_member());
                                    let j = choose|j: int| 0 <= j < fl.len() && fl[j] == mraws[
                                        i as int];
                                    assert(method_of_raw(mraws[i as int], pm, c.static_methods[j]));
                                    assert(method_parsed(
                                        s@,
                                        cur as int,
                                        pm,
                                        c.static_methods[j],
                                        pnext,
                                    ));
                                } else {
                                    mraws.lemma_filter_contains(instance_member(), i as int);
                                    let fl = mraws.filter(instance_member());
                                    let j = choose|j: int| 0 <= j < fl.len() && fl[j] == mraws[
                                        i as int];
                                    assert(method_of_raw(mraws[i as int], pm, c.methods[j]));
                                    assert(method_parsed(s@, cur as int, pm, c.methods[j], pnext));
                                }
                            }
                        }
                    }
                    return Err(e);
                },
            };
            let ghost raw = FieldModel {
                name: m@.name,
                typ: m@.descriptor,
                access: m@.access,
                attributes: m@.attributes,
            };
            proof {
                assert(spec_parse_field(s@, cur as int, pm) == Some((raw, p2 as int)));
                lemma_filter_push(raws, static_member(), raw);
                lemma_filter_push(raws, instance_member(), raw);
                assert(forall|rest2: Seq<FieldModel>|
                    (raws + (seq![raw] + rest2)) =~= (raws.push(raw) + rest2));
            }
            let ghost old_statics = methods_model(static_methods@);
            let ghost old_insts = methods_model(methods@);
            if m.is_static() {
                static_methods.push(m);
                proof {
                    assert(methods_model(static_methods@) =~= old_statics.push(
                        static_methods@[static_methods@.len() - 1]@,
                    ));
                }
            } else {
                methods.push(m);
                proof {
                    assert(methods_model(methods@) =~= old_insts.push(
                        methods@[methods@.len() - 1]@,
                    ));
                }
            }
            proof {
                raws = raws.push(raw);
            }
            cur = p2;
            i = i + 1;
        }
        proof {
            assert(spec_parse_fields(s@, cur as int, pm, 0) == Some(
                (Seq::<FieldModel>::empty(), cur as int),
            ));
            assert(raws + Seq::<FieldModel>::empty() =~= raws);
        }

        proof {
            assert(spec_parse_field_list(s@, p3 as int, pm) == Some((raws, cur as int)));
        }
        let (attributes, _) = parse_attributes(s, cur, &constant_pool)?;

        let c = Class {
            name,
            superclass_name,
            constant_pool,
            static_fields,
            static_values,
            static_methods,
            fields,
            methods,
            interfaces,
            attributes,
            monitor: Monitor { owner: None, depth: 0, waiters: Vec::new() },
        };
        proof {
            assert(c@.monitor == monitor_free());
        }
        Ok(c)
    }

    /// Parses a class file at the single accepted version pair. Succeeds
    /// if and only if the bytes are a well-formed class file at that
    /// version; on every other input it fails with `InvalidClass`.
    pub fn parse(s: &[u8]) -> (r: Result<Class, Error>)
        ensures
            match r {
                Ok(c) => spec_class_parsed(s@, c@),
                Err(e) => e == Error::InvalidClass && forall|c: ClassModel|
                    !spec_class_parsed(s@, c),
            },
    {
        Class::parse_with_version(s, ACCEPTED_MAJOR, ACCEPTED_MINOR)
    }

    /// The class's fully qualified name.
    pub fn name(&self) -> (r: &Vec<u8>)
        ensures
            r@ == self@.name,
    {
        &self.name
    }
}

/// Whether a method has the given name and descriptor.
pub open spec fn method_sig_matches(m: MethodModel, name: Seq<u8>, descriptor: Seq<u8>) -> bool {
    m.name == name && m.descriptor == descriptor
}

/// Whether a field has the given name and descriptor.
pub open spec fn field_sig_matches(f: FieldModel, name: Seq<u8>, descriptor: Seq<u8>) -> bool {
    f.name == name && f.typ == descriptor
}

/// The first index at or after `k` of a method with the given signature.
pub open spec fn spec_method_index_from(
    ms: Seq<MethodModel>,
    name: Seq<u8>,
    descriptor: Seq<u8>,
    k: int,
) -> Option<int>
    decreases ms.len() - k,
{
    if k < 0 || k >= ms.len() {
        None
    } else if method_sig_matches(ms[k], name, descriptor) {
        Some(k)
    } else {
        spec_method_index_from(ms, name, descriptor, k + 1)
    }
}

/// The first index of a method with the given signature.
pub open spec fn spec_method_index(ms: Seq<MethodModel>, name: Seq<u8>, descriptor: Seq<u8>) -> Option<
    int,
> {
    spec_method_index_from(ms, name, descriptor, 0)
}

/// The first index at or after `k` of a field with the given signature.
pub open spec fn spec_field_index_from(
    fs: Seq<FieldModel>,
    name: Seq<u8>,
    descriptor: Seq<u8>,
    k: int,
) -> Option<int>
    decreases fs.len() - k,
{
    if k < 0 || k >= fs.len() {
        None
    } else if field_sig_matches(fs[k], name, descriptor) {
        Some(k)
    } else {
        spec_field_index_from(fs, name, descriptor, k + 1)
    }
}

/// The first index of a field with the given signature.
pub open spec fn spec_field_index(fs: Seq<FieldModel>, name: Seq<u8>, descriptor: Seq<u8>) -> Option<
    int,
> {
    spec_field_index_from(fs, name, descriptor, 0)
}

/// A scan that stopped at `i` determines [`spec_method_index_from`].
proof fn lemma_method_index(ms: Seq<MethodModel>, name: Seq<u8>, descriptor: Seq<u8>, k: int, i: int)
    requires
        0 <= k <= i <= ms.len(),
        forall|j: int| k <= j < i ==> !method_sig_matches(#[trigger] ms[j], name, descriptor),
        i < ms.len() ==> method_sig_matches(ms[i], name, descriptor),
    ensures
        spec_method_index_from(ms, name, descriptor, k) == if i < ms.len() {
            Some(i)
        } else {
            None::<int>
        },
    decreases i - k,
{
    if k < i {
        lemma_method_index(ms, name, descriptor, k + 1, i);
    }
}

/// A scan that stopped at `i` determines [`spec_field_index_from`].
proof fn lemma_field_index(fs: Seq<FieldModel>, name: Seq<u8>, descriptor: Seq<u8>, k: int, i: int)
    requires
        0 <= k <= i <= fs.len(),
        forall|j: int| k <= j < i ==> !field_sig_matches(#[trigger] fs[j], name, descriptor),
        i < fs.len() ==> field_sig_matches(fs[i], name, descriptor),
    ensures
        spec_field_index_from(fs, name, descriptor, k) == if i < fs.len() {
            Some(i)
        } else {
            None::<int>
        },
    decreases i - k,
{
    if k < i {
        lemma_field_index(fs, name, descriptor, k + 1, i);
    }
}

/// Scans a method group for the first signature match.
#[verifier::loop_isolation(false)]
fn find_method(ms: &Vec<Method>, name: &Vec<u8>, descriptor: &Vec<u8>) -> (r: Option<usize>)
    ensures
        match r {
            Some(i) => spec_method_index(methods_model(ms@), name@, descriptor@) == Some(i as int)
                && i < ms@.len(),
            None => spec_method_index(methods_model(ms@), name@, descriptor@) is None,
        },
{
    let ghost msm = methods_model(ms@);
    let mut i: usize = 0;
    while i < ms.len()
        invariant
            i <= msm.len(),
            forall|j: int| 0 <= j < i ==> !method_sig_matches(#[trigger] msm[j], name@, descriptor@),
        decreases msm.len() - i,
    {
        if bytes_eq(&ms[i].name, name) && bytes_eq(&ms[i].descriptor, descriptor) {
            proof {
                lemma_method_index(msm, name@, descriptor@, 0, i as int);
            }
            return Some(i);
        }
        i = i + 1;
    }
    proof {
        lemma_method_index(msm, name@, descriptor@, 0, msm.len() as int);
    }
    None
}

/// Scans a field group for the first signature match.
#[verifier::loop_isolation(false)]
fn find_field(fs: &Vec<Field>, name: &Vec<u8>, descriptor: &Vec<u8>) -> (r: Option<usize>)
    ensures
        match r {
            Some(i) => spec_field_index(fields_model(fs@), name@, descriptor@) == Some(i as int)
                && i < fs@.len(),
            None => spec_field_index(fields_model(fs@), name@, descriptor@) is None,
        },
{
    let ghost fsm = fields_model(fs@);
    let mut i: usize = 0;
    while i < fs.len()
        invariant
            i <= fsm.len(),
            forall|j: int| 0 <= j < i ==> !field_sig_matches(#[trigger] fsm[j], name@, descriptor@),
        decreases fsm.len() - i,
    {
        if bytes_eq(&fs[i].name, name) && bytes_eq(&fs[i].typ, descriptor) {
            proof {
                lemma_field_index(fsm, name@, descriptor@, 0, i as int);
            }
            return Some(i);
        }
        i = i + 1;
    }
    proof {
        lemma_field_index(fsm, name@, descriptor@, 0, fsm.len() as int);
    }
    None
}

impl Class {
    /// The method addressed by a discriminated index, if it exists.
    pub fn method(&self, index: MethodIndex) -> (r: Option<&Method>)
        ensures
            match index {
                MethodIndex::Dynamic(i) => match r {
                    Some(m) => i < self@.methods.len() && m@ == self@.methods[i as int],
                    None => i >= self@.methods.len(),
                },
                MethodIndex::Static(i) => match r {
                    Some(m) => i < self@.static_methods.len() && m@
                        == self@.static_methods[i as int],
                    None => i >= self@.static_methods.len(),
                },
            },
    {
        match index {
            MethodIndex::Dynamic(i) => if i < self.methods.len() {
                Some(&self.methods[i])
            } else {
                None
            },
            MethodIndex::Static(i) => if i < self.static_methods.len() {
                Some(&self.static_methods[i])
            } else {
                None
            },
        }
    }

    /// The first instance method with the given name and descriptor.
    pub fn method_index(&self, name: &Vec<u8>, descriptor: &Vec<u8>) -> (r: Option<MethodIndex>)
        ensures
            match r {
                Some(ix) => ix matches MethodIndex::Dynamic(i) && i < self@.methods.len()
                    && spec_method_index(self@.methods, name@, descriptor@) == Some(i as int),
                None => spec_method_index(self@.methods, name@, descriptor@) is None,
            },
    {
        match find_method(&self.methods, name, descriptor) {
            Some(i) => Some(MethodIndex::Dynamic(i)),
            None => None,
        }
    }

    /// The first static method with the given name and descriptor.
    pub fn static_method_index(&self, name: &Vec<u8>, descriptor: &Vec<u8>) -> (r: Option<
        MethodIndex,
    >)
        ensures
            match r {
                Some(ix) => ix matches MethodIndex::Static(i) && i < self@.static_methods.len()
                    && spec_method_index(self@.static_methods, name@, descriptor@) == Some(
                    i as int,
                ),
                None => spec_method_index(self@.static_methods, name@, descriptor@) is None,
            },
    {
        match find_method(&self.static_methods, name, descriptor) {
            Some(i) => Some(MethodIndex::Static(i)),
            None => None,
        }
    }

    /// The first instance field with the given name and descriptor.
    pub fn field_index(&self, name: &Vec<u8>, descriptor: &Vec<u8>) -> (r: Option<FieldIndex>)
        ensures
            match r {
                Some(ix) => ix matches FieldIndex::Dynamic(i) && i < self@.fields.len()
                    && spec_field_index(self@.fields, name@, descriptor@) == Some(i as int),
                None => spec_field_index(self@.fields, name@, descriptor@) is None,
            },
    {
        match find_field(&self.fields, name, descriptor) {
            Some(i) => Some(FieldIndex::Dynamic(i)),
            None => None,
        }
    }

    /// The first static field with the given name and descriptor.
    pub fn static_field_index(&self, name: &Vec<u8>, descriptor: &Vec<u8>) -> (r: Option<
        FieldIndex,
    >)
        ensures
            match r {
                Some(ix) => ix matches FieldIndex::Static(i) && i < self@.static_fields.len()
                    && spec_field_index(self@.static_fields, name@, descriptor@) == Some(
                    i as int,
                ),
                None => spec_field_index(self@.static_fields, name@, descriptor@) is None,
            },
    {
        match find_field(&self.static_fields, name, descriptor) {
            Some(i) => Some(FieldIndex::Static(i)),
            None => None,
        }
    }

    /// The current value of the static field cell addressed by a static
    /// index. Instance indices address no cell here.
    pub fn static_field_value(&self, index: FieldIndex) -> (r: Option<Value>)
        requires
            index matches FieldIndex::Static(_),
        ensures
            match index {
                FieldIndex::Static(i) => match r {
                    Some(v) => i < self@.static_values.len() && v == self@.static_values[i as int],
                    None => i >= self@.static_values.len(),
                },
                FieldIndex::Dynamic(_) => r is None,
            },
    {
        match index {
            FieldIndex::Static(i) => if i < self.static_values.len() {
                Some(self.static_values[i])
            } else {
                None
            },
            FieldIndex::Dynamic(_) => None,
        }
    }

    /// The current value of the named static field.
    pub fn static_field_value_name(&self, name: &Vec<u8>, descriptor: &Vec<u8>) -> (r: Option<
        Value,
    >)
        ensures
            match spec_field_index(self@.static_fields, name@, descriptor@) {
                Some(i) => i < self@.static_values.len() ==> r == Some(
                    self@.static_values[i],
                ),
                None => r is None,
            },
    {
        let index = self.static_field_index(name, descriptor)?;
        self.static_field_value(index)
    }

    /// Writes the static field cell addressed by a static index; fails
    /// when no such cell exists.
    pub fn set_static_field_value(&mut self, index: FieldIndex, value: Value) -> (r: bool)
        requires
            index matches FieldIndex::Static(_),
        ensures
            match index {
                FieldIndex::Static(i) => r == (i < old(self)@.static_values.len()) && (r
                    ==> final(self)@ == class_with_static_values(
                    old(self)@,
                    old(self)@.static_values.update(i as int, value),
                )) && (!r ==> *final(self) == *old(self)),
                FieldIndex::Dynamic(_) => !r && *final(self) == *old(self),
            },
    {
        match index {
            FieldIndex::Static(i) => if i < self.static_values.len() {
                self.static_values.set(i, value);
                true
            } else {
                false
            },
            FieldIndex::Dynamic(_) => false,
        }
    }

    /// Writes the named static field; fails when the class has no such
    /// static field.
    pub fn set_static_field_value_name(
        &mut self,
        name: &Vec<u8>,
        descriptor: &Vec<u8>,
        value: Value,
    ) -> (r: bool)
        ensures
            match spec_field_index(old(self)@.static_fields, name@, descriptor@) {
                Some(i) => i < old(self)@.static_values.len() ==> r && final(self)@
                    == class_with_static_values(
                    old(self)@,
                    old(self)@.static_values.update(i, value),
                ),
                None => !r && *final(self) == *old(self),
            },
    {
        match self.static_field_index(name, descriptor) {
            Some(index) => self.set_static_field_value(index, value),
            None => false,
        }
    }

    /// The constant at 1-based index `n`; index 0 is always invalid.
    pub fn constant(&self, n: usize) -> (r: Option<&Constant>)
        ensures
            match r {
                Some(c) => spec_constant_at(self@.constant_pool, n as int) == Some(c@),
                None => spec_constant_at(self@.constant_pool, n as int) is None,
            },
    {
        if n == 0 || n > self.constant_pool.len() {
            return None;
        }
        Some(&self.constant_pool[n - 1])
    }

    /// Acquires the class monitor for `thread`, re-entering when the
    /// thread already holds it. Returns false — leaving the monitor
    /// unchanged — when another thread holds it or the re-entry count
    /// would overflow; the caller must then suspend the thread.
    pub fn monitor_enter(&mut self, thread: usize) -> (r: bool)
        ensures
            old(self)@.monitor.owner is None ==> r && final(self)@ == class_with_monitor(
                old(self)@,
                MonitorModel {
                    owner: Some(thread),
                    depth: 1,
                    waiters: old(self)@.monitor.waiters,
                },
            ),
            old(self)@.monitor.owner == Some(thread) && old(self)@.monitor.depth < u64::MAX ==> r
                && final(self)@ == class_with_monitor(
                old(self)@,
                MonitorModel {
                    owner: Some(thread),
                    depth: (old(self)@.monitor.depth + 1) as u64,
                    waiters: old(self)@.monitor.waiters,
                },
            ),
            !(old(self)@.monitor.owner is None || (old(self)@.monitor.owner == Some(thread) && old(
                self,
            )@.monitor.depth < u64::MAX)) ==> !r && *final(self) == *old(self),
    {
        match self.monitor.owner {
            None => {
                self.monitor.owner = Some(thread);
                self.monitor.depth = 1;
                true
            },
            Some(owner) => {
                if owner == thread && self.monitor.depth < u64::MAX {
                    self.monitor.depth = self.monitor.depth + 1;
                    true
                } else {
                    false
                }
            },
        }
    }

    /// Releases one re-entry of the class monitor held by `thread`;
    /// false when that thread does not hold it.
    pub fn monitor_exit(&mut self, thread: usize) -> (r: bool)
        ensures
            r == (old(self)@.monitor.owner == Some(thread) && old(self)@.monitor.depth > 0),
            r && old(self)@.monitor.depth > 1 ==> final(self)@ == class_with_monitor(
                old(self)@,
                MonitorModel {
                    owner: Some(thread),
                    depth: (old(self)@.monitor.depth - 1) as u64,
                    waiters: old(self)@.monitor.waiters,
                },
            ),
            r && old(self)@.monitor.depth == 1 ==> final(self)@ == class_with_monitor(
                old(self)@,
                MonitorModel { owner: None, depth: 0, waiters: old(self)@.monitor.waiters },
            ),
            !r ==> *final(self) == *old(self),
    {
        match self.monitor.owner {
            Some(owner) => {
                if owner == thread && self.monitor.depth > 0 {
                    if self.monitor.depth == 1 {
                        self.monitor.owner = None;
                        self.monitor.depth = 0;
                    } else {
                        self.monitor.depth = self.monitor.depth - 1;
                    }
                    true
                } else {
                    false
                }
            },
            None => false,
        }
    }

    /// Suspends `thread` on the class monitor: the thread joins the wait
    /// set and stays there until a notification removes it.
    pub fn wait(&mut self, thread: usize)
        ensures
            final(self)@ == class_with_monitor(
                old(self)@,
                MonitorModel {
                    owner: old(self)@.monitor.owner,
                    depth: old(self)@.monitor.depth,
                    waiters: old(self)@.monitor.waiters.push(thread),
                },
            ),
    {
        self.monitor.waiters.push(thread);
    }

    /// Wakes one waiter — the longest-waiting thread — and returns it;
    /// `None` when nobody waits.
    pub fn notify(&mut self) -> (r: Option<usize>)
        ensures
            old(self)@.monitor.waiters.len() == 0 ==> r is None && *final(self) == *old(self),
            old(self)@.monitor.waiters.len() > 0 ==> r == Some(old(self)@.monitor.waiters[0])
                && final(self)@ == class_with_monitor(
                old(self)@,
                MonitorModel {
                    owner: old(self)@.monitor.owner,
                    depth: old(self)@.monitor.depth,
                    waiters: old(self)@.monitor.waiters.skip(1),
                },
            ),
    {
        if self.monitor.waiters.len() == 0 {
            None
        } else {
            let t = self.monitor.waiters.remove(0);
            proof {
                assert(self.monitor.waiters@ =~= old(self).monitor.waiters@.skip(1));
            }
            Some(t)
        }
    }
}

} // verus!
