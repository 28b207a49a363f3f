//! The device description the generator works from:
//! device, peripherals, registers, fields, value sets and entities.

use vstd::prelude::*;
use crate::enums::EnumType;

verus! {

/// The primitive value types a field may have.
pub enum Primitive {
    Boolean,
    Unsigned,
}

/// A field's type: a primitive, or a value set named by its type name.
pub enum FieldType {
    Raw(Primitive),
    Enumerated(String),
}

/// Which accessors a field has.
pub enum Capability {
    Read,
    Write,
    ReadWrite,
}

impl Capability {
    pub open spec fn can_read(self) -> bool {
        !(self is Write)
    }

    pub open spec fn can_write(self) -> bool {
        !(self is Read)
    }
}

/// A bit field of a register.
pub struct Field {
    /// The name used in the generated entity API.
    pub name: String,
    /// The name of the field in the hardware description.
    pub hw_name: String,
    pub mask: u32,
    pub field_type: FieldType,
    pub access: Capability,
    /// Hidden fields are left out of entity APIs but still take part in register I/O.
    pub visible: bool,
}

/// A 32-bit register and its fields.
pub struct Register {
    pub name: String,
    pub fields: Vec<Field>,
}

/// A peripheral: described in full, or sharing the layout of another one at its own address.
pub enum Peripheral {
    Content { name: String, base_address: u32, registers: Vec<Register> },
    Derived { name: String, base_address: u32, derived_from: String },
}

impl Peripheral {
    pub open spec fn name_view(&self) -> Seq<char> {
        match self {
            Peripheral::Content { name, .. } => name@,
            Peripheral::Derived { name, .. } => name@,
        }
    }

    pub open spec fn address(&self) -> u32 {
        match self {
            Peripheral::Content { base_address, .. } => *base_address,
            Peripheral::Derived { base_address, .. } => *base_address,
        }
    }

    pub fn name(&self) -> (r: &String)
        ensures
            r@ == self.name_view(),
    {
        match self {
            Peripheral::Content { name, .. } => name,
            Peripheral::Derived { name, .. } => name,
        }
    }

    pub fn base_address(&self) -> (r: u32)
        ensures
            r == self.address(),
    {
        match self {
            Peripheral::Content { base_address, .. } => *base_address,
            Peripheral::Derived { base_address, .. } => *base_address,
        }
    }
}

/// A device: its peripherals, in order, and the value sets its fields use.
pub struct Device {
    pub name: String,
    pub peripherals: Vec<Peripheral>,
    pub enum_types: Vec<EnumType>,
}

/// A named group of (peripheral, register) pairs, with an optional teardown
/// expression that replaces the default commit.
pub struct EntityDef {
    pub name: String,
    pub registers: Vec<(String, String)>,
    pub teardown: Option<String>,
}

} // verus!
