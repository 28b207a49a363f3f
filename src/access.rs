//! Per-register readers and writers: field extraction from one snapshot,
//! and partial writes that only touch the bits of the fields that were set.

use vstd::prelude::*;
use crate::bits::{
    extract, extract_field, field_limit, lemma_extract_place, lemma_shift_in_word, merge, place,
    place_field, shift_of,
};
use crate::bus::Bus;

verus! {

/// The value type of a field.
#[derive(Clone, Copy)]
pub enum ValueKind {
    Boolean,
    Unsigned,
    /// An enumeration with `variants` discriminants, numbered from 0.
    Enumerated { variants: usize },
}

/// A typed field value.
pub enum FieldValue {
    Boolean(bool),
    Unsigned(u32),
    /// The ordinal of a discriminant.
    Enumerated(usize),
}

/// A raw value that names no discriminant of the enumeration.
pub struct DecodeError {
    pub raw: u32,
    pub variants: usize,
}

/// A field as the generated accessors see it: its mask and value type.
#[derive(Clone, Copy)]
pub struct Accessor {
    pub mask: u32,
    pub kind: ValueKind,
}

/// Whether `v` is a value of the kind `kind`.
pub open spec fn admits(kind: ValueKind, v: FieldValue) -> bool {
    match (kind, v) {
        (ValueKind::Boolean, FieldValue::Boolean(_)) => true,
        (ValueKind::Unsigned, FieldValue::Unsigned(_)) => true,
        (ValueKind::Enumerated { variants }, FieldValue::Enumerated(o)) => o < variants && o
            <= u32::MAX,
        _ => false,
    }
}

/// The raw encoding of a value: 0 or 1, the number itself, or the ordinal.
pub open spec fn encode(v: FieldValue) -> u32 {
    match v {
        FieldValue::Boolean(b) => if b {
            1
        } else {
            0
        },
        FieldValue::Unsigned(u) => u,
        FieldValue::Enumerated(o) => o as u32,
    }
}

/// The typed value of a raw field value: a boolean is whether it equals 1,
/// an unsigned is itself, an enumeration fails on an ordinal out of range.
pub open spec fn decode(kind: ValueKind, raw: u32) -> Result<FieldValue, DecodeError> {
    match kind {
        ValueKind::Boolean => Ok(FieldValue::Boolean(raw == 1)),
        ValueKind::Unsigned => Ok(FieldValue::Unsigned(raw)),
        ValueKind::Enumerated { variants } => if (raw as int) < variants {
            Ok(FieldValue::Enumerated(raw as usize))
        } else {
            Err(DecodeError { raw, variants })
        },
    }
}

/// Computes `decode(*kind, raw)`.
pub fn decode_value(kind: &ValueKind, raw: u32) -> (r: Result<FieldValue, DecodeError>)
    ensures
        r == decode(*kind, raw),
{
    match kind {
        ValueKind::Boolean => Ok(FieldValue::Boolean(raw == 1)),
        ValueKind::Unsigned => Ok(FieldValue::Unsigned(raw)),
        ValueKind::Enumerated { variants } => {
            if (raw as usize) < *variants {
                Ok(FieldValue::Enumerated(raw as usize))
            } else {
                Err(DecodeError { raw, variants: *variants })
            }
        },
    }
}

/// Computes `encode(*v)`.
pub fn encode_value(v: &FieldValue) -> (r: u32)
    requires
        v matches FieldValue::Enumerated(o) ==> o <= u32::MAX,
    ensures
        r == encode(*v),
{
    match v {
        FieldValue::Boolean(b) => if *b {
            1
        } else {
            0
        },
        FieldValue::Unsigned(u) => *u,
        FieldValue::Enumerated(o) => *o as u32,
    }
}

/// A snapshot of one register, taken by exactly one load.
#[derive(Clone, Copy)]
pub struct Reader {
    pub snapshot: u32,
}

impl Reader {
    /// Loads register `reg` once and keeps the word.
    pub fn load(bus: &mut Bus, reg: usize) -> (r: Reader)
        requires
            reg < old(bus)@.words.len(),
        ensures
            r.snapshot == old(bus)@.words[reg as int],
            final(bus)@ == old(bus)@.loaded(reg),
    {
        Reader { snapshot: bus.load(reg) }
    }

    /// The raw value of a field in the snapshot.
    pub fn raw(&self, mask: u32) -> (r: u32)
        requires
            mask != 0,
        ensures
            r == extract(self.snapshot, mask),
    {
        extract_field(self.snapshot, mask)
    }

    /// The typed value of a field in the snapshot; an error where an
    /// enumerated field holds an ordinal it does not define.
    pub fn field(&self, acc: &Accessor) -> (r: Result<FieldValue, DecodeError>)
        requires
            acc.mask != 0,
        ensures
            r == decode(acc.kind, extract(self.snapshot, acc.mask)),
    {
        let raw = self.raw(acc.mask);
        decode_value(&acc.kind, raw)
    }
}

/// Staged field writes to one register: the bits set so far in `value`,
/// and the union of the masks written in `touched`.
pub struct Writer {
    pub value: u32,
    pub touched: u32,
}

impl Writer {
    /// The writer after the raw value `raw` is set in the field `mask`.
    pub open spec fn with_field(self, mask: u32, raw: u32) -> Writer {
        Writer { value: (self.value & !mask) | place(raw, mask), touched: self.touched | mask }
    }

    /// The word committed over the register's current word.
    pub open spec fn merged(self, current: u32) -> u32 {
        merge(current, self.value, self.touched)
    }

    /// A writer with nothing set.
    pub fn new() -> (r: Writer)
        ensures
            r == (Writer { value: 0, touched: 0 }),
    {
        Writer { value: 0, touched: 0 }
    }

    /// Sets the raw value of a field.
    pub fn set_raw(&mut self, mask: u32, raw: u32)
        requires
            mask != 0,
        ensures
            *final(self) == old(self).with_field(mask, raw),
    {
        let placed = place_field(raw, mask);
        self.value = (self.value & !mask) | placed;
        self.touched = self.touched | mask;
    }

    /// Sets the typed value of a field.
    pub fn set(&mut self, acc: &Accessor, v: FieldValue)
        requires
            acc.mask != 0,
            admits(acc.kind, v),
        ensures
            *final(self) == old(self).with_field(acc.mask, encode(v)),
    {
        let raw = encode_value(&v);
        self.set_raw(acc.mask, raw);
    }

    /// Computes `self.merged(current)`.
    pub fn merge_into(&self, current: u32) -> (r: u32)
        ensures
            r == self.merged(current),
    {
        (current & !self.touched) | (self.value & self.touched)
    }

    /// Commits to register `reg`: one load, the merge, one store.
    pub fn write(&self, bus: &mut Bus, reg: usize)
        requires
            reg < old(bus)@.words.len(),
        ensures
            final(bus)@ == old(bus)@.loaded(reg).stored(reg, self.merged(old(bus)@.words[reg as int])),
    {
        let current = bus.load(reg);
        let merged = self.merge_into(current);
        bus.store(reg, merged);
    }
}

/// Field round trip: setting a field to `v`, committing over any current
/// word and reading the field back gives the encoding of `v` cut to the
/// field's bits; where the encoding fits the field, and always for a
/// boolean, the field decodes to `v` itself.
pub proof fn lemma_field_round_trip(w: Writer, current: u32, acc: Accessor, v: FieldValue)
    requires
        acc.mask != 0,
        admits(acc.kind, v),
    ensures
        extract(w.with_field(acc.mask, encode(v)).merged(current), acc.mask) == encode(v)
            & field_limit(acc.mask),
        (encode(v) & field_limit(acc.mask)) == encode(v) || v is Boolean ==> decode(
            acc.kind,
            extract(w.with_field(acc.mask, encode(v)).merged(current), acc.mask),
        ) == Ok::<FieldValue, DecodeError>(v),
{
    let m = acc.mask;
    let r = encode(v);
    let s = shift_of(m);
    let c = current;
    let t = w.touched;
    let val = w.value;
    lemma_shift_in_word(m);
    assert(((c & !(t | m)) | (((val & !m) | ((r << s) & m)) & (t | m))) & m == (r << s) & m)
        by (bit_vector);
    lemma_extract_place(r, m, s);
    let limit = field_limit(m);
    assert(limit & 1 == 1 && r <= 1 ==> r & limit == r) by (bit_vector);
}

/// Non-interference: committing a writer that never touched the field
/// `mask` leaves that field as the register held it.
pub proof fn lemma_non_interference(w: Writer, current: u32, mask: u32)
    requires
        w.touched & mask == 0,
    ensures
        extract(w.merged(current), mask) == extract(current, mask),
{
    let c = current;
    let t = w.touched;
    let val = w.value;
    assert(t & mask == 0 ==> ((c & !t) | (val & t)) & mask == c & mask) by (bit_vector);
}

/// Writing only one field leaves a field that does not overlap it unchanged.
pub proof fn lemma_disjoint_fields(current: u32, written: u32, other: u32, raw: u32)
    requires
        written & other == 0,
    ensures
        extract(Writer { value: 0, touched: 0 }.with_field(written, raw).merged(current), other)
            == extract(current, other),
{
    assert(((0u32 | written) & other) == written & other) by (bit_vector);
    lemma_non_interference(Writer { value: 0, touched: 0 }.with_field(written, raw), current, other);
}

} // verus!
