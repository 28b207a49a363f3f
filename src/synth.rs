//! What the generator derives from a checked description for its output:
//! hexadecimal masks, field accessors, discriminant ordinals and the
//! peripheral address map.

use vstd::prelude::*;
use crate::access::{Accessor, ValueKind};
use crate::entity::{EntityField, Layout};
use crate::checks::{content_named, enum_defined, find_enum, find_peripheral, registers_of};
use crate::enums::EnumType;
use crate::model::{Capability, Device, EntityDef, Field, FieldType, Peripheral, Primitive, Register};

verus! {

/// The digits of hexadecimal notation, upper case.
pub open spec fn hex_table() -> Seq<char> {
    seq!['0', '1', '2', '3', '4', '5', '6', '7', '8', '9', 'A', 'B', 'C', 'D', 'E', 'F']
}

/// The hexadecimal digits of `n`, most significant first, without leading zeros.
pub open spec fn hex_digits(n: nat) -> Seq<char>
    decreases n,
{
    if n < 16 {
        seq![hex_table()[n as int]]
    } else {
        hex_digits(n / 16).push(hex_table()[(n % 16) as int])
    }
}

/// `n` in hexadecimal with a `0x` prefix, as masks are written in the output.
pub open spec fn hex_text(n: u32) -> Seq<char> {
    seq!['0', 'x'] + hex_digits(n as nat)
}

/// Relies on `String::from_iter`: the string holds the characters in order.
#[verifier::external_body]
fn string_from_chars(chars: Vec<char>) -> (r: String)
    ensures
        r@ == chars@,
{
    String::from_iter(chars)
}

/// Writes `n` in hexadecimal with a `0x` prefix and upper-case digits.
pub fn hex(n: u32) -> (r: String)
    ensures
        r@ == hex_text(n),
{
    let table: Vec<char> = vec!['0', '1', '2', '3', '4', '5', '6', '7', '8', '9', 'A', 'B', 'C', 'D', 'E', 'F'];
    assert(table@ =~= hex_table());
    let mut x: u32 = n;
    let mut tail: Vec<char> = Vec::new();
    while x >= 16
        invariant
            table@ == hex_table(),
            hex_digits(n as nat) == hex_digits(x as nat) + tail@,
        decreases x,
    {
        let d = table[(x % 16) as usize];
        let ghost old_tail = tail@;
        tail.insert(0, d);
        proof {
            assert(hex_digits(x as nat) == hex_digits((x / 16) as nat).push(d));
            assert(hex_digits((x / 16) as nat).push(d) + old_tail =~= hex_digits((x / 16) as nat)
                + tail@);
        }
        x = x / 16;
    }
    let mut out: Vec<char> = Vec::new();
    out.push('0');
    out.push('x');
    out.push(table[x as usize]);
    let mut k: usize = 0;
    while k < tail.len()
        invariant
            k <= tail.len(),
            out@ =~= seq!['0', 'x'] + hex_digits(x as nat) + tail@.subrange(0, k as int),
        decreases tail.len() - k,
    {
        out.push(tail[k]);
        k += 1;
        assert(out@ =~= seq!['0', 'x'] + hex_digits(x as nat) + tail@.subrange(0, k as int));
    }
    assert(tail@.subrange(0, tail.len() as int) =~= tail@);
    assert(out@ =~= hex_text(n));
    string_from_chars(out)
}

/// `k` is the first value set of the device named `name`.
pub open spec fn first_enum(d: Device, k: int, name: Seq<char>) -> bool {
    &&& 0 <= k < d.enum_types.len()
    &&& d.enum_types[k].name@ == name
    &&& forall|k2: int| 0 <= k2 < k ==> #[trigger] d.enum_types[k2].name@ != name
}

/// The value kind of a field type; none for a value set the device lacks.
pub open spec fn kind_of(d: Device, t: FieldType) -> Option<ValueKind> {
    match t {
        FieldType::Raw(Primitive::Boolean) => Some(ValueKind::Boolean),
        FieldType::Raw(Primitive::Unsigned) => Some(ValueKind::Unsigned),
        FieldType::Enumerated(n) => if enum_defined(d, n@) {
            let k = choose|k: int| first_enum(d, k, n@);
            Some(ValueKind::Enumerated { variants: d.enum_types[k].values.len() })
        } else {
            None
        },
    }
}

proof fn lemma_first_enum_unique(d: Device, k: int, j: int, name: Seq<char>)
    requires
        first_enum(d, k, name),
        first_enum(d, j, name),
    ensures
        k == j,
{
    if k < j {
        assert(d.enum_types[k].name@ != name);
    } else if j < k {
        assert(d.enum_types[j].name@ != name);
    }
}

/// Computes `kind_of(*d, *t)`.
pub fn value_kind(d: &Device, t: &FieldType) -> (r: Option<ValueKind>)
    ensures
        r == kind_of(*d, *t),
{
    match t {
        FieldType::Raw(Primitive::Boolean) => Some(ValueKind::Boolean),
        FieldType::Raw(Primitive::Unsigned) => Some(ValueKind::Unsigned),
        FieldType::Enumerated(name) => match find_enum(d, name) {
            Some(k) => {
                proof {
                    assert(first_enum(*d, k as int, name@));
                    let c = choose|c: int| first_enum(*d, c, name@);
                    lemma_first_enum_unique(*d, k as int, c, name@);
                }
                Some(ValueKind::Enumerated { variants: d.enum_types[k].values.len() })
            },
            None => None,
        },
    }
}

/// A field as the register accessor output lists it.
pub struct FieldAccessor {
    /// The hardware name, which names the accessor.
    pub name: String,
    /// The mask in hexadecimal.
    pub mask_text: String,
    pub accessor: Accessor,
    pub readable: bool,
    pub writable: bool,
    /// Whether entity APIs show the field.
    pub visible: bool,
}

/// What the accessor of field `f` holds.
pub open spec fn accessor_of(d: Device, f: Field, a: FieldAccessor) -> bool {
    &&& a.name@ == f.hw_name@
    &&& a.mask_text@ == hex_text(f.mask)
    &&& a.accessor.mask == f.mask
    &&& Some(a.accessor.kind) == kind_of(d, f.field_type)
    &&& a.readable == f.access.can_read()
    &&& a.writable == f.access.can_write()
    &&& a.visible == f.visible
}

/// The accessor of one field; none where its value set is missing.
pub fn field_accessor(d: &Device, f: &Field) -> (r: Option<FieldAccessor>)
    ensures
        r is None <==> kind_of(*d, f.field_type) is None,
        r matches Some(a) ==> accessor_of(*d, *f, a),
{
    match value_kind(d, &f.field_type) {
        None => None,
        Some(kind) => {
            let readable = !matches!(f.access, Capability::Write);
            let writable = !matches!(f.access, Capability::Read);
            Some(
                FieldAccessor {
                    name: f.hw_name.clone(),
                    mask_text: hex(f.mask),
                    accessor: Accessor { mask: f.mask, kind },
                    readable,
                    writable,
                    visible: f.visible,
                },
            )
        },
    }
}

/// The accessors of a register's fields, in order; the index of the first
/// field whose value set is missing otherwise.
pub fn register_accessors(d: &Device, fields: &Vec<Field>) -> (r: Result<Vec<FieldAccessor>, usize>)
    ensures
        r is Ok <==> forall|i: int| 0 <= i < fields.len() ==> #[trigger] kind_of(*d, fields[i].field_type) is Some,
        r matches Ok(v) ==> v.len() == fields.len() && forall|i: int|
            0 <= i < fields.len() ==> accessor_of(*d, #[trigger] fields[i], v[i]),
        r matches Err(i) ==> i < fields.len() && kind_of(*d, fields[i as int].field_type) is None,
{
    let mut out: Vec<FieldAccessor> = Vec::new();
    let mut i: usize = 0;
    while i < fields.len()
        invariant
            i <= fields.len(),
            out.len() == i,
            forall|j: int| 0 <= j < i ==> accessor_of(*d, #[trigger] fields[j], out[j]),
            forall|j: int| 0 <= j < i ==> #[trigger] kind_of(*d, fields[j].field_type) is Some,
        decreases fields.len() - i,
    {
        match field_accessor(d, &fields[i]) {
            Some(a) => out.push(a),
            None => {
                return Err(i);
            },
        }
        i += 1;
    }
    Ok(out)
}

/// Each discriminant of a value set with its ordinal, its position in the list.
pub fn ordinals(t: &EnumType) -> (r: Vec<(String, u32)>)
    requires
        t.values.len() <= u32::MAX + 1,
    ensures
        r.len() == t.values.len(),
        forall|i: int| 0 <= i < r.len() ==> (#[trigger] r[i]).0@ == t.values[i]@ && r[i].1 == i,
{
    let mut out: Vec<(String, u32)> = Vec::new();
    let mut i: usize = 0;
    while i < t.values.len()
        invariant
            t.values.len() <= u32::MAX + 1,
            i <= t.values.len(),
            out.len() == i,
            forall|j: int| 0 <= j < i ==> (#[trigger] out[j]).0@ == t.values[j]@ && out[j].1 == j,
        decreases t.values.len() - i,
    {
        out.push((t.values[i].clone(), i as u32));
        i += 1;
    }
    out
}

/// Each peripheral's name with its own base address, described or derived alike.
pub fn address_map(d: &Device) -> (r: Vec<(String, u32)>)
    ensures
        r.len() == d.peripherals.len(),
        forall|i: int|
            0 <= i < r.len() ==> (#[trigger] r[i]).0@ == d.peripherals[i].name_view() && r[i].1
                == d.peripherals[i].address(),
{
    let mut out: Vec<(String, u32)> = Vec::new();
    let mut i: usize = 0;
    while i < d.peripherals.len()
        invariant
            i <= d.peripherals.len(),
            out.len() == i,
            forall|j: int|
                0 <= j < i ==> (#[trigger] out[j]).0@ == d.peripherals[j].name_view() && out[j].1
                    == d.peripherals[j].address(),
        decreases d.peripherals.len() - i,
    {
        let p = &d.peripherals[i];
        out.push((p.name().clone(), p.base_address()));
        i += 1;
    }
    out
}

/// A register of an entity with the accessors of all its fields.
pub struct EntityRegister {
    /// Index of the peripheral in the device.
    pub peripheral_index: usize,
    /// Index of the register in the peripheral.
    pub register_index: usize,
    pub peripheral: String,
    pub register: String,
    pub fields: Vec<FieldAccessor>,
}

/// What the entity output needs: the entity's registers in order, and its teardown.
pub struct EntityContext {
    pub name: String,
    pub registers: Vec<EntityRegister>,
    pub teardown: Option<String>,
}

/// Why an entity cannot be generated; `pair` indexes its (peripheral, register) list.
pub enum EntityError {
    RepeatedRegister { first: usize, second: usize },
    UnknownPeripheral { pair: usize },
    /// The peripheral is derived; its registers are described elsewhere.
    DerivedPeripheral { pair: usize },
    /// The described peripheral `peripheral` has no register of that name.
    UnknownRegister { pair: usize, peripheral: usize },
    /// Field `field` of register `register` of peripheral `peripheral` has an undefined type.
    UndefinedEnum { pair: usize, peripheral: usize, register: usize, field: usize },
}

/// The index of the first register of `registers` named `name`.
fn find_register(registers: &Vec<Register>, name: &String) -> (r: Option<usize>)
    ensures
        r matches Some(k) ==> k < registers.len() && registers[k as int].name@ == name@,
        r is None ==> forall|k: int| 0 <= k < registers.len() ==> #[trigger] registers[k].name@ != name@,
{
    let mut k: usize = 0;
    while k < registers.len()
        invariant
            k <= registers.len(),
            forall|k2: int| 0 <= k2 < k ==> #[trigger] registers[k2].name@ != name@,
        decreases registers.len() - k,
    {
        if registers[k].name == *name {
            return Some(k);
        }
        k += 1;
    }
    None
}

/// `c` is the context of register `r` of the described peripheral `p`, named by `pair`.
pub open spec fn register_context(d: Device, pair: (String, String), c: EntityRegister) -> bool {
    let p = c.peripheral_index as int;
    let r = c.register_index as int;
    &&& content_named(d, p, pair.0@)
    &&& 0 <= r < registers_of(d, p).len()
    &&& registers_of(d, p)[r].name@ == pair.1@
    &&& c.peripheral@ == pair.0@
    &&& c.register@ == pair.1@
    &&& c.fields.len() == registers_of(d, p)[r].fields.len()
    &&& forall|i: int|
        0 <= i < c.fields.len() ==> accessor_of(d, registers_of(d, p)[r].fields[i], #[trigger] c.fields[i])
}

/// Register `k` of the described peripheral `j`, named by `pair`, has a
/// field `field` whose type the device does not define.
pub open spec fn undefined_enum_at(d: Device, pair: (String, String), j: int, k: int, field: int) -> bool {
    &&& content_named(d, j, pair.0@)
    &&& 0 <= k < registers_of(d, j).len()
    &&& registers_of(d, j)[k].name@ == pair.1@
    &&& 0 <= field < registers_of(d, j)[k].fields.len()
    &&& kind_of(d, registers_of(d, j)[k].fields[field].field_type) is None
}

/// Resolves an entity's (peripheral, register) pairs against the device and
/// lists each register with its field accessors. A pair may appear once.
pub fn entity_context(d: &Device, ent: &EntityDef) -> (res: Result<EntityContext, EntityError>)
    ensures
        res matches Ok(ctx) ==> ctx.name@ == ent.name@ && ctx.teardown == ent.teardown
            && ctx.registers.len() == ent.registers.len() && forall|s: int|
            0 <= s < ent.registers.len() ==> register_context(*d, ent.registers[s], #[trigger] ctx.registers[s]),
        res matches Err(EntityError::RepeatedRegister { first, second }) ==> first < second
            < ent.registers.len() && ent.registers[first as int].0@ == ent.registers[second as int].0@
            && ent.registers[first as int].1@ == ent.registers[second as int].1@,
        res matches Err(EntityError::UnknownPeripheral { pair }) ==> pair < ent.registers.len()
            && forall|j: int|
            0 <= j < d.peripherals.len() ==> #[trigger] d.peripherals[j].name_view()
                != ent.registers[pair as int].0@,
        res matches Err(EntityError::DerivedPeripheral { pair }) ==> pair < ent.registers.len()
            && exists|j: int|
            0 <= j < d.peripherals.len() && #[trigger] d.peripherals[j].name_view()
                == ent.registers[pair as int].0@ && d.peripherals[j] is Derived,
        res matches Err(EntityError::UnknownRegister { pair, peripheral }) ==> pair
            < ent.registers.len() && content_named(*d, peripheral as int, ent.registers[pair as int].0@)
            && forall|k: int|
            0 <= k < registers_of(*d, peripheral as int).len() ==> #[trigger] registers_of(
                *d,
                peripheral as int,
            )[k].name@ != ent.registers[pair as int].1@,
        res matches Err(EntityError::UndefinedEnum { pair, peripheral, register, field }) ==> pair
            < ent.registers.len() && undefined_enum_at(
            *d,
            ent.registers[pair as int],
            peripheral as int,
            register as int,
            field as int,
        ),
{
    let n = ent.registers.len();
    let mut a: usize = 0;
    while a < n
        invariant
            n == ent.registers.len(),
            a <= n,
        decreases n - a,
    {
        let mut b: usize = a + 1;
        while b < n
            invariant
                n == ent.registers.len(),
                a < n,
                a < b <= n,
            decreases n - b,
        {
            if ent.registers[a].0 == ent.registers[b].0 && ent.registers[a].1 == ent.registers[b].1 {
                return Err(EntityError::RepeatedRegister { first: a, second: b });
            }
            b += 1;
        }
        a += 1;
    }
    let mut out: Vec<EntityRegister> = Vec::new();
    let mut s: usize = 0;
    while s < n
        invariant
            n == ent.registers.len(),
            s <= n,
            out.len() == s,
            forall|t: int| 0 <= t < s ==> register_context(*d, ent.registers[t], #[trigger] out[t]),
        decreases n - s,
    {
        let pname = &ent.registers[s].0;
        let rname = &ent.registers[s].1;
        let p = match find_peripheral(d, pname) {
            Some(p) => p,
            None => {
                return Err(EntityError::UnknownPeripheral { pair: s });
            },
        };
        match &d.peripherals[p] {
            Peripheral::Derived { .. } => {
                return Err(EntityError::DerivedPeripheral { pair: s });
            },
            Peripheral::Content { name, registers, .. } => {
                assert(registers@ == registers_of(*d, p as int));
                assert(content_named(*d, p as int, pname@));
                let r = match find_register(registers, rname) {
                    Some(r) => r,
                    None => {
                        return Err(EntityError::UnknownRegister { pair: s, peripheral: p });
                    },
                };
                let fields = match register_accessors(d, &registers[r].fields) {
                    Ok(v) => v,
                    Err(field) => {
                        return Err(
                            EntityError::UndefinedEnum { pair: s, peripheral: p, register: r, field },
                        );
                    },
                };
                let c = EntityRegister {
                    peripheral_index: p,
                    register_index: r,
                    peripheral: name.clone(),
                    register: registers[r].name.clone(),
                    fields,
                };
                assert(register_context(*d, ent.registers[s as int], c));
                out.push(c);
            },
        }
        s += 1;
    }
    let teardown = match &ent.teardown {
        Some(t) => Some(t.clone()),
        None => None,
    };
    Ok(EntityContext { name: ent.name.clone(), registers: out, teardown })
}

/// The runtime field for an accessor in slot `slot`: hidden fields keep their
/// place in register I/O but can be neither read nor set through the entity.
pub open spec fn entity_field_of(slot: int, a: FieldAccessor) -> EntityField {
    EntityField {
        slot: slot as usize,
        accessor: a.accessor,
        readable: a.readable && a.visible,
        writable: a.writable && a.visible,
    }
}

/// The runtime fields of the first `k` registers, register by register, each in field order.
pub open spec fn layout_fields(regs: Seq<EntityRegister>, k: int) -> Seq<EntityField>
    decreases k,
{
    if k <= 0 {
        Seq::empty()
    } else {
        layout_fields(regs, k - 1) + Seq::new(
            regs[k - 1].fields@.len(),
            |i: int| entity_field_of(k - 1, regs[k - 1].fields[i]),
        )
    }
}

/// The runtime layout of an entity whose registers sit at the bus indices `registers`.
pub fn layout_of(ctx: &EntityContext, registers: Vec<usize>) -> (r: Layout)
    requires
        registers.len() == ctx.registers.len(),
    ensures
        r.registers@ == registers@,
        r.fields@ == layout_fields(ctx.registers@, ctx.registers.len() as int),
{
    let mut fields: Vec<EntityField> = Vec::new();
    let mut s: usize = 0;
    while s < ctx.registers.len()
        invariant
            s <= ctx.registers.len(),
            fields@ == layout_fields(ctx.registers@, s as int),
        decreases ctx.registers.len() - s,
    {
        let reg = &ctx.registers[s];
        let ghost before = fields@;
        let mut i: usize = 0;
        while i < reg.fields.len()
            invariant
                i <= reg.fields.len(),
                *reg == ctx.registers@[s as int],
                fields@ == before + Seq::new(
                    i as nat,
                    |j: int| entity_field_of(s as int, reg.fields[j]),
                ),
            decreases reg.fields.len() - i,
        {
            let a = &reg.fields[i];
            fields.push(
                EntityField {
                    slot: s,
                    accessor: a.accessor,
                    readable: a.readable && a.visible,
                    writable: a.writable && a.visible,
                },
            );
            i += 1;
            assert(fields@ =~= before + Seq::new(
                i as nat,
                |j: int| entity_field_of(s as int, reg.fields[j]),
            ));
        }
        assert(layout_fields(ctx.registers@, s + 1) =~= before + Seq::new(
            reg.fields.len() as nat,
            |j: int| entity_field_of(s as int, reg.fields[j]),
        ));
        s += 1;
    }
    Layout { registers, fields }
}

} // verus!
