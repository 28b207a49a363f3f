//! Enumerated value sets: ordinals are positions in the declared list.

use vstd::prelude::*;
use crate::access::{decode, DecodeError, FieldValue, ValueKind};

verus! {

/// A named value set; the ordinal of a discriminant is its position.
pub struct EnumType {
    pub name: String,
    pub values: Vec<String>,
}

impl EnumType {
    /// The value kind of fields of this type.
    pub fn kind(&self) -> (r: ValueKind)
        ensures
            r == (ValueKind::Enumerated { variants: self.values.len() }),
    {
        ValueKind::Enumerated { variants: self.values.len() }
    }

    /// The ordinal that `raw` encodes; an error for a value past the last ordinal.
    pub fn decode(&self, raw: u32) -> (r: Result<usize, DecodeError>)
        ensures
            (raw as int) < self.values.len() ==> r == Ok::<usize, DecodeError>(raw as usize),
            (raw as int) >= self.values.len() ==> r == Err::<usize, DecodeError>(
                DecodeError { raw, variants: self.values.len() },
            ),
    {
        if (raw as usize) < self.values.len() {
            Ok(raw as usize)
        } else {
            Err(DecodeError { raw, variants: self.values.len() })
        }
    }

    /// The name of the discriminant that `raw` encodes; an error for a value
    /// past the last ordinal.
    pub fn discriminant(&self, raw: u32) -> (r: Result<String, DecodeError>)
        ensures
            (raw as int) < self.values.len() <==> r is Ok,
            r is Ok ==> r->Ok_0@ == self.values@[raw as int]@,
            r is Err ==> r->Err_0 == (DecodeError { raw, variants: self.values.len() }),
    {
        if (raw as usize) < self.values.len() {
            Ok(self.values[raw as usize].clone())
        } else {
            Err(DecodeError { raw, variants: self.values.len() })
        }
    }
}

/// Adds a value set to `types` unless one of the same name is already there:
/// each value set is listed once, where it first appears.
pub fn add_enum_type(types: &mut Vec<EnumType>, t: EnumType)
    ensures
        (exists|k: int| 0 <= k < old(types).len() && #[trigger] old(types)[k].name@ == t.name@)
            ==> final(types)@ == old(types)@,
        !(exists|k: int| 0 <= k < old(types).len() && #[trigger] old(types)[k].name@ == t.name@)
            ==> final(types)@ == old(types)@.push(t),
{
    let mut k: usize = 0;
    while k < types.len()
        invariant
            k <= types.len(),
            types@ == old(types)@,
            forall|k2: int| 0 <= k2 < k ==> #[trigger] types[k2].name@ != t.name@,
        decreases types.len() - k,
    {
        if types[k].name == t.name {
            return;
        }
        k += 1;
    }
    types.push(t);
}

/// Enumeration exhaustiveness: every ordinal below the number of
/// discriminants decodes to itself, and every other raw value fails.
pub proof fn lemma_enum_exhaustive(variants: usize)
    ensures
        forall|raw: u32|
            (raw as int) < variants ==> #[trigger] decode(ValueKind::Enumerated { variants }, raw)
                == Ok::<FieldValue, DecodeError>(FieldValue::Enumerated(raw as usize)),
        forall|raw: u32|
            (raw as int) >= variants ==> #[trigger] decode(ValueKind::Enumerated { variants }, raw)
                is Err,
{
}

} // verus!
