//! Consistency checks on a device description; the generator emits nothing
//! for a description that fails one of them.

use vstd::prelude::*;
use crate::model::{Device, FieldType, Peripheral, Register};

verus! {

/// What is wrong with a register's masks.
pub enum MaskFault {
    /// The field has no bits.
    Empty { field: usize },
    /// Two fields share bits.
    Overlap { first: usize, second: usize },
}

/// An inconsistency of a device description, located by indices.
pub enum ModelError {
    EmptyMask { peripheral: usize, register: usize, field: usize },
    OverlappingFields { peripheral: usize, register: usize, first: usize, second: usize },
    UndefinedEnum { peripheral: usize, register: usize, field: usize },
    DuplicatePeripheral { first: usize, second: usize },
    /// A derived peripheral names no peripheral of the device.
    UnresolvedSource { peripheral: usize },
    /// A derived peripheral names another derived peripheral.
    DerivedSource { peripheral: usize, source: usize },
}

/// Every field has bits, and no two fields share one.
pub open spec fn masks_valid(r: Register) -> bool {
    &&& forall|i: int| 0 <= i < r.fields.len() ==> #[trigger] r.fields[i].mask != 0
    &&& forall|i: int, j: int|
        #![trigger r.fields[i], r.fields[j]]
        0 <= i < j < r.fields.len() ==> r.fields[i].mask & r.fields[j].mask == 0
}

/// The device has a value set of this name.
pub open spec fn enum_defined(d: Device, name: Seq<char>) -> bool {
    exists|k: int| 0 <= k < d.enum_types.len() && #[trigger] d.enum_types[k].name@ == name
}

/// The field type is primitive or names a value set of the device.
pub open spec fn type_defined(d: Device, t: FieldType) -> bool {
    match t {
        FieldType::Raw(_) => true,
        FieldType::Enumerated(n) => enum_defined(d, n@),
    }
}

pub open spec fn register_valid(d: Device, r: Register) -> bool {
    &&& masks_valid(r)
    &&& forall|f: int| 0 <= f < r.fields.len() ==> type_defined(d, #[trigger] r.fields[f].field_type)
}

/// No two peripherals share a name.
pub open spec fn names_unique(d: Device) -> bool {
    forall|a: int, b: int|
        #![trigger d.peripherals[a], d.peripherals[b]]
        0 <= a < b < d.peripherals.len() ==> d.peripherals[a].name_view()
            != d.peripherals[b].name_view()
}

/// The peripheral `j` is described in full and has the name `name`.
pub open spec fn content_named(d: Device, j: int, name: Seq<char>) -> bool {
    0 <= j < d.peripherals.len() && d.peripherals[j] is Content && d.peripherals[j].name_view()
        == name
}

pub open spec fn peripheral_valid(d: Device, p: Peripheral) -> bool {
    match p {
        Peripheral::Content { registers, .. } => forall|k: int|
            0 <= k < registers.len() ==> register_valid(d, #[trigger] registers[k]),
        Peripheral::Derived { derived_from, .. } => exists|j: int|
            #[trigger] content_named(d, j, derived_from@),
    }
}

/// The description is consistent: unique peripheral names, valid registers,
/// defined value sets, and derived peripherals that name a described one.
pub open spec fn device_valid(d: Device) -> bool {
    &&& names_unique(d)
    &&& forall|i: int| 0 <= i < d.peripherals.len() ==> peripheral_valid(d, #[trigger] d.peripherals[i])
}

/// Checks that every field has bits and that no two fields overlap; reports
/// the first empty field, else the first overlapping pair.
pub fn check_masks(r: &Register) -> (res: Result<(), MaskFault>)
    ensures
        res is Ok <==> masks_valid(*r),
        res matches Err(MaskFault::Empty { field }) ==> field < r.fields.len()
            && r.fields[field as int].mask == 0,
        res matches Err(MaskFault::Overlap { first, second }) ==> first < second < r.fields.len()
            && r.fields[first as int].mask & r.fields[second as int].mask != 0,
{
    let n = r.fields.len();
    let mut i: usize = 0;
    while i < n
        invariant
            n == r.fields.len(),
            i <= n,
            forall|k: int| 0 <= k < i ==> #[trigger] r.fields[k].mask != 0,
        decreases n - i,
    {
        if r.fields[i].mask == 0 {
            return Err(MaskFault::Empty { field: i });
        }
        i += 1;
    }
    let mut a: usize = 0;
    while a < n
        invariant
            n == r.fields.len(),
            a <= n,
            forall|k: int| 0 <= k < n ==> #[trigger] r.fields[k].mask != 0,
            forall|x: int, y: int|
                #![trigger r.fields[x], r.fields[y]]
                0 <= x < a && x < y < n ==> r.fields[x].mask & r.fields[y].mask == 0,
        decreases n - a,
    {
        let mut b: usize = a + 1;
        while b < n
            invariant
                n == r.fields.len(),
                a < n,
                a < b <= n,
                forall|k: int| 0 <= k < n ==> #[trigger] r.fields[k].mask != 0,
                forall|x: int, y: int|
                    #![trigger r.fields[x], r.fields[y]]
                    0 <= x < a && x < y < n ==> r.fields[x].mask & r.fields[y].mask == 0,
                forall|y: int| a < y < b ==> r.fields[a as int].mask & #[trigger] r.fields[y].mask == 0,
            decreases n - b,
        {
            if r.fields[a].mask & r.fields[b].mask != 0 {
                return Err(MaskFault::Overlap { first: a, second: b });
            }
            b += 1;
        }
        a += 1;
    }
    Ok(())
}

/// The index of the first value set named `name`.
pub fn find_enum(d: &Device, name: &String) -> (r: Option<usize>)
    ensures
        r matches Some(k) ==> k < d.enum_types.len() && d.enum_types[k as int].name@ == name@
            && forall|k2: int| 0 <= k2 < k ==> #[trigger] d.enum_types[k2].name@ != name@,
        r is None ==> !enum_defined(*d, name@),
{
    let mut k: usize = 0;
    while k < d.enum_types.len()
        invariant
            k <= d.enum_types.len(),
            forall|k2: int| 0 <= k2 < k ==> #[trigger] d.enum_types[k2].name@ != name@,
        decreases d.enum_types.len() - k,
    {
        if d.enum_types[k].name == *name {
            return Some(k);
        }
        k += 1;
    }
    None
}

/// The index of the first peripheral named `name`.
pub fn find_peripheral(d: &Device, name: &String) -> (r: Option<usize>)
    ensures
        r matches Some(j) ==> j < d.peripherals.len() && d.peripherals[j as int].name_view()
            == name@ && forall|j2: int| 0 <= j2 < j ==> #[trigger] d.peripherals[j2].name_view() != name@,
        r is None ==> forall|j2: int|
            0 <= j2 < d.peripherals.len() ==> #[trigger] d.peripherals[j2].name_view() != name@,
{
    let mut j: usize = 0;
    while j < d.peripherals.len()
        invariant
            j <= d.peripherals.len(),
            forall|j2: int| 0 <= j2 < j ==> #[trigger] d.peripherals[j2].name_view() != name@,
        decreases d.peripherals.len() - j,
    {
        if *d.peripherals[j].name() == *name {
            return Some(j);
        }
        j += 1;
    }
    None
}

/// Checks that every field type of the register is defined; reports the first that is not.
pub fn check_field_types(d: &Device, r: &Register) -> (res: Result<(), usize>)
    ensures
        res is Ok <==> forall|f: int|
            0 <= f < r.fields.len() ==> type_defined(*d, #[trigger] r.fields[f].field_type),
        res matches Err(f) ==> f < r.fields.len() && !type_defined(*d, r.fields[f as int].field_type),
{
    let mut f: usize = 0;
    while f < r.fields.len()
        invariant
            f <= r.fields.len(),
            forall|g: int| 0 <= g < f ==> type_defined(*d, #[trigger] r.fields[g].field_type),
        decreases r.fields.len() - f,
    {
        match &r.fields[f].field_type {
            FieldType::Raw(_) => {},
            FieldType::Enumerated(name) => {
                if find_enum(d, name).is_none() {
                    return Err(f);
                }
            },
        }
        f += 1;
    }
    Ok(())
}

/// Checks that peripheral names are unique; reports the first pair that repeats a name.
pub fn check_unique_names(d: &Device) -> (res: Result<(), (usize, usize)>)
    ensures
        res is Ok <==> names_unique(*d),
        res matches Err((a, b)) ==> a < b < d.peripherals.len() && d.peripherals[a as int].name_view()
            == d.peripherals[b as int].name_view(),
{
    let n = d.peripherals.len();
    let mut a: usize = 0;
    while a < n
        invariant
            n == d.peripherals.len(),
            a <= n,
            forall|x: int, y: int|
                #![trigger d.peripherals[x], d.peripherals[y]]
                0 <= x < a && x < y < n ==> d.peripherals[x].name_view() != d.peripherals[y].name_view(),
        decreases n - a,
    {
        let mut b: usize = a + 1;
        while b < n
            invariant
                n == d.peripherals.len(),
                a < n,
                a < b <= n,
                forall|x: int, y: int|
                    #![trigger d.peripherals[x], d.peripherals[y]]
                    0 <= x < a && x < y < n ==> d.peripherals[x].name_view()
                        != d.peripherals[y].name_view(),
                forall|y: int|
                    a < y < b ==> d.peripherals[a as int].name_view()
                        != #[trigger] d.peripherals[y].name_view(),
            decreases n - b,
        {
            if *d.peripherals[a].name() == *d.peripherals[b].name() {
                return Err((a, b));
            }
            b += 1;
        }
        a += 1;
    }
    Ok(())
}

/// The peripheral whose layout the derived peripheral `i` shares.
pub fn resolve_source(d: &Device, i: usize) -> (res: Result<usize, ModelError>)
    requires
        i < d.peripherals.len(),
        d.peripherals[i as int] is Derived,
    ensures
        res matches Ok(j) ==> content_named(*d, j as int, d.peripherals[i as int]->derived_from@),
        res matches Err(ModelError::UnresolvedSource { peripheral }) ==> peripheral == i
            && forall|j: int|
            0 <= j < d.peripherals.len() ==> #[trigger] d.peripherals[j].name_view()
                != d.peripherals[i as int]->derived_from@,
        res matches Err(ModelError::DerivedSource { peripheral, source }) ==> peripheral == i
            && source < d.peripherals.len() && d.peripherals[source as int] is Derived
            && d.peripherals[source as int].name_view() == d.peripherals[i as int]->derived_from@,
        res is Err ==> res matches Err(ModelError::UnresolvedSource { .. }) || res matches Err(
            ModelError::DerivedSource { .. },
        ),
        names_unique(*d) ==> (res is Ok <==> exists|j: int|
            #[trigger] content_named(*d, j, d.peripherals[i as int]->derived_from@)),
{
    let source = match &d.peripherals[i] {
        Peripheral::Derived { derived_from, .. } => derived_from,
        Peripheral::Content { .. } => {
            return Err(ModelError::UnresolvedSource { peripheral: i });
        },
    };
    match find_peripheral(d, source) {
        None => {
            proof {
                assert forall|k: int| !content_named(*d, k, source@) by {
                    if 0 <= k < d.peripherals.len() {
                        assert(d.peripherals[k].name_view() != source@);
                    }
                }
            }
            Err(ModelError::UnresolvedSource { peripheral: i })
        },
        Some(j) => {
            if matches!(d.peripherals[j], Peripheral::Content { .. }) {
                assert(content_named(*d, j as int, source@));
                Ok(j)
            } else {
                proof {
                    if names_unique(*d) {
                        assert forall|k: int| !content_named(*d, k, source@) by {
                            if content_named(*d, k, source@) && k != j {
                                if k < j {
                                    assert(d.peripherals[k].name_view() != d.peripherals[j as int].name_view());
                                } else {
                                    assert(d.peripherals[j as int].name_view() != d.peripherals[k].name_view());
                                }
                            }
                        }
                    }
                }
                Err(ModelError::DerivedSource { peripheral: i, source: j })
            }
        },
    }
}

/// The registers of peripheral `p`, which is described in full.
pub open spec fn registers_of(d: Device, p: int) -> Seq<Register> {
    d.peripherals[p]->Content_registers@
}

/// Checks the whole description: names first, then each peripheral in order,
/// each register's masks before its field types. Reports the first fault found.
pub fn check_device(d: &Device) -> (res: Result<(), ModelError>)
    ensures
        res is Ok <==> device_valid(*d),
        res matches Err(ModelError::DuplicatePeripheral { first, second }) ==> first < second
            < d.peripherals.len() && d.peripherals[first as int].name_view()
            == d.peripherals[second as int].name_view(),
        res matches Err(ModelError::EmptyMask { peripheral, register, field }) ==> peripheral
            < d.peripherals.len() && d.peripherals[peripheral as int] is Content && register
            < registers_of(*d, peripheral as int).len() && field < registers_of(
            *d,
            peripheral as int,
        )[register as int].fields.len() && registers_of(
            *d,
            peripheral as int,
        )[register as int].fields[field as int].mask == 0,
        res matches Err(ModelError::OverlappingFields { peripheral, register, first, second })
            ==> peripheral < d.peripherals.len() && d.peripherals[peripheral as int] is Content
            && register < registers_of(*d, peripheral as int).len() && first < second
            < registers_of(*d, peripheral as int)[register as int].fields.len() && registers_of(
            *d,
            peripheral as int,
        )[register as int].fields[first as int].mask & registers_of(
            *d,
            peripheral as int,
        )[register as int].fields[second as int].mask != 0,
        res matches Err(ModelError::UndefinedEnum { peripheral, register, field }) ==> peripheral
            < d.peripherals.len() && d.peripherals[peripheral as int] is Content && register
            < registers_of(*d, peripheral as int).len() && field < registers_of(
            *d,
            peripheral as int,
        )[register as int].fields.len() && !type_defined(
            *d,
            registers_of(*d, peripheral as int)[register as int].fields[field as int].field_type,
        ),
        res matches Err(ModelError::UnresolvedSource { peripheral }) ==> peripheral
            < d.peripherals.len() && d.peripherals[peripheral as int] is Derived && !exists|j: int|
            #[trigger] content_named(*d, j, d.peripherals[peripheral as int]->derived_from@),
        res matches Err(ModelError::DerivedSource { peripheral, source }) ==> peripheral
            < d.peripherals.len() && source < d.peripherals.len() && d.peripherals[peripheral as int] is Derived
            && d.peripherals[source as int] is Derived && d.peripherals[source as int].name_view()
            == d.peripherals[peripheral as int]->derived_from@,
{
    match check_unique_names(d) {
        Err((a, b)) => {
            return Err(ModelError::DuplicatePeripheral { first: a, second: b });
        },
        Ok(()) => {},
    }
    let n = d.peripherals.len();
    let mut i: usize = 0;
    while i < n
        invariant
            n == d.peripherals.len(),
            i <= n,
            names_unique(*d),
            forall|x: int| 0 <= x < i ==> peripheral_valid(*d, #[trigger] d.peripherals[x]),
        decreases n - i,
    {
        match &d.peripherals[i] {
            Peripheral::Content { registers, .. } => {
                let mut k: usize = 0;
                while k < registers.len()
                    invariant
                        n == d.peripherals.len(),
                        i < n,
                        names_unique(*d),
                        forall|x: int| 0 <= x < i ==> peripheral_valid(*d, #[trigger] d.peripherals[x]),
                        d.peripherals[i as int] is Content,
                        registers@ == registers_of(*d, i as int),
                        k <= registers.len(),
                        forall|y: int| 0 <= y < k ==> register_valid(*d, #[trigger] registers[y]),
                    decreases registers.len() - k,
                {
                    match check_masks(&registers[k]) {
                        Err(MaskFault::Empty { field }) => {
                            proof {
                                assert(!register_valid(*d, registers[k as int]));
                                assert(!peripheral_valid(*d, d.peripherals[i as int]));
                            }
                            return Err(ModelError::EmptyMask { peripheral: i, register: k, field });
                        },
                        Err(MaskFault::Overlap { first, second }) => {
                            proof {
                                assert(!register_valid(*d, registers[k as int]));
                                assert(!peripheral_valid(*d, d.peripherals[i as int]));
                            }
                            return Err(
                                ModelError::OverlappingFields {
                                    peripheral: i,
                                    register: k,
                                    first,
                                    second,
                                },
                            );
                        },
                        Ok(()) => {},
                    }
                    match check_field_types(d, &registers[k]) {
                        Err(field) => {
                            proof {
                                assert(!register_valid(*d, registers[k as int]));
                                assert(!peripheral_valid(*d, d.peripherals[i as int]));
                            }
                            return Err(ModelError::UndefinedEnum { peripheral: i, register: k, field });
                        },
                        Ok(()) => {},
                    }
                    k += 1;
                }
                assert(peripheral_valid(*d, d.peripherals[i as int]));
            },
            Peripheral::Derived { .. } => {
                match resolve_source(d, i) {
                    Ok(_) => {},
                    Err(e) => {
                        return Err(e);
                    },
                }
            },
        }
        i += 1;
    }
    Ok(())
}

} // verus!
