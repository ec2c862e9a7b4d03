//! The tagged value union used for all data on operand stacks, in local
//! slots, and in field cells, together with the heap object model.
//!
//! Floating-point values are carried as their raw IEEE-754 bit patterns
//! (`u32` / `u64`): the engine moves them between cells, slots and stacks
//! but performs no arithmetic on them. A reference value holds the index
//! of an object in the interpreter's heap; the heap entry lives as long
//! as the interpreter context.

use vstd::prelude::*;
use crate::class::{Class, FieldIndex, spec_field_index};

verus! {

/// The primitive kinds plus the reference kind. A `Reference` names a
/// class by its index in the interpreter's class registry.
#[derive(Clone, Copy, Debug, PartialEq, Eq, Structural)]
pub enum Type {
    Boolean,
    Char,
    Byte,
    Short,
    Int,
    Long,
    Float,
    Double,
    Reference(usize),
}

/// A single datum: one primitive or one heap reference.
///
/// `Float` and `Double` hold raw IEEE-754 bits. `Reference` holds a heap
/// index.
#[derive(Clone, Copy, Debug, PartialEq, Eq, Structural)]
pub enum Value {
    Boolean(bool),
    Char(i16),
    Byte(i8),
    Short(i16),
    Int(i32),
    Long(i64),
    Float(u32),
    Double(u64),
    Reference(usize),
}

/// An object instance: its class, and one mutable cell per instance field.
///
/// `class` is the registry index of the object's class. An object thrown
/// by the engine itself to signal a runtime fault carries only the fault's
/// conventional class name and no registry index (`class == None`); such
/// an object has no fields.
#[derive(Clone, Debug)]
pub struct Object {
    pub class_name: Vec<u8>,
    pub class: Option<usize>,
    pub fields: Vec<Value>,
}

/// The mathematical model of an [`Object`].
#[verifier::ext_equal]
pub ghost struct ObjectModel {
    pub class_name: Seq<u8>,
    pub class: Option<usize>,
    pub fields: Seq<Value>,
}

impl View for Object {
    type V = ObjectModel;

    open spec fn view(&self) -> ObjectModel {
        ObjectModel { class_name: self.class_name@, class: self.class, fields: self.fields@ }
    }
}

impl Object {
    /// The value of the instance field at `index`.
    pub fn get_field_at(&self, index: usize) -> (r: Option<Value>)
        ensures
            match r {
                Some(v) => index < self@.fields.len() && v == self@.fields[index as int],
                None => index >= self@.fields.len(),
            },
    {
        if index < self.fields.len() {
            Some(self.fields[index])
        } else {
            None
        }
    }

    /// The value of the instance field the class knows under this name
    /// and descriptor, when the object has such a cell.
    pub fn get_field_name(&self, class: &Class, name: &Vec<u8>, descriptor: &Vec<u8>) -> (r: Option<
        Value,
    >)
        ensures
            match spec_field_index(class@.fields, name@, descriptor@) {
                Some(i) => r == (if i < self@.fields.len() {
                    Some(self@.fields[i])
                } else {
                    None
                }),
                None => r is None,
            },
    {
        match class.field_index(name, descriptor) {
            Some(FieldIndex::Dynamic(i)) => self.get_field_at(i),
            _ => None,
        }
    }

    /// Writes the instance field the class knows under this name and
    /// descriptor; fails when the class has no such instance field or
    /// the object has no such cell.
    pub fn set_field_name(
        &mut self,
        class: &Class,
        name: &Vec<u8>,
        descriptor: &Vec<u8>,
        value: Value,
    ) -> (r: bool)
        ensures
            match spec_field_index(class@.fields, name@, descriptor@) {
                Some(i) => r == (i < old(self)@.fields.len()) && (r ==> final(self)@.fields == old(
                    self,
                )@.fields.update(i, value) && final(self)@.class_name == old(self)@.class_name
                    && final(self)@.class == old(self)@.class),
                None => !r,
            } && (!r ==> *final(self) == *old(self)),
    {
        match class.field_index(name, descriptor) {
            Some(FieldIndex::Dynamic(i)) => self.set_field_at(i, value),
            _ => false,
        }
    }

    /// Writes the instance field at `index`; fails when no such cell exists.
    pub fn set_field_at(&mut self, index: usize, value: Value) -> (r: bool)
        ensures
            r == (index < old(self)@.fields.len()),
            r ==> final(self)@.fields == old(self)@.fields.update(index as int, value),
            r ==> final(self)@.class_name == old(self)@.class_name && final(self)@.class == old(
                self)@.class,
            !r ==> *final(self) == *old(self),
    {
        if index < self.fields.len() {
            self.fields.set(index, value);
            true
        } else {
            false
        }
    }
}

} // verus!
