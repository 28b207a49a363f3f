//! Mask arithmetic shared by readers and writers.

use vstd::prelude::*;

verus! {

/// Bit position of the lowest set bit of a field mask.
pub open spec fn shift_of(mask: u32) -> u32 {
    mask.trailing_zeros()
}

/// The mask of a field moved down to bit 0: the bits a raw field value may use.
pub open spec fn field_limit(mask: u32) -> u32 {
    mask >> shift_of(mask)
}

/// The raw value of the field `mask` within the register word `word`.
pub open spec fn extract(word: u32, mask: u32) -> u32 {
    (word & mask) >> shift_of(mask)
}

/// A raw field value moved into the position of `mask`, cut to its bits.
pub open spec fn place(raw: u32, mask: u32) -> u32 {
    (raw << shift_of(mask)) & mask
}

/// Read-modify-write: bits in `touched` come from `value`, the rest from `current`.
pub open spec fn merge(current: u32, value: u32, touched: u32) -> u32 {
    (current & !touched) | (value & touched)
}

/// The shift of a non-empty mask lies within the word.
pub proof fn lemma_shift_in_word(mask: u32)
    requires
        mask != 0,
    ensures
        shift_of(mask) < 32,
        (field_limit(mask) & 1) == 1,
{
    vstd::std_specs::bits::axiom_u32_trailing_zeros(mask);
}

/// Extracting a placed value gives the value cut to the field's width.
pub proof fn lemma_extract_place(raw: u32, mask: u32, s: u32)
    requires
        s < 32,
    ensures
        ((raw << s) & mask) >> s == raw & (mask >> s),
{
    assert(((raw << s) & mask) >> s == raw & (mask >> s)) by (bit_vector)
        requires
            s < 32,
    ;
}

/// Computes `extract(word, mask)`.
pub fn extract_field(word: u32, mask: u32) -> (r: u32)
    requires
        mask != 0,
    ensures
        r == extract(word, mask),
{
    proof {
        lemma_shift_in_word(mask);
    }
    let s = mask.trailing_zeros();
    (word & mask) >> s
}

/// Computes `place(raw, mask)`.
pub fn place_field(raw: u32, mask: u32) -> (r: u32)
    requires
        mask != 0,
    ensures
        r == place(raw, mask),
{
    proof {
        lemma_shift_in_word(mask);
    }
    let s = mask.trailing_zeros();
    (raw << s) & mask
}

/// Whether bit `j` of `word` is set.
pub open spec fn bit_set(word: u32, j: u32) -> bool {
    (word >> j) & 1 == 1
}

proof fn lemma_set_bit(m: u32, b: u32, j: u32)
    requires
        b < 32,
        j < 32,
    ensures
        bit_set(m | (1u32 << b), j) == (j == b || bit_set(m, j)),
{
    assert(((m | (1u32 << b)) >> j) & 1 == 1 <==> (j == b || (m >> j) & 1 == 1)) by (bit_vector)
        requires
            b < 32,
            j < 32,
    ;
}

/// The mask of a field of `width` bits starting at bit `offset`; none for an
/// empty field or one that does not fit in the word.
pub fn mask_from_bits(offset: u32, width: u32) -> (r: Option<u32>)
    ensures
        r is Some <==> 1 <= width && offset + width <= 32,
        r matches Some(m) ==> forall|j: u32|
            j < 32 ==> (#[trigger] bit_set(m, j) <==> offset <= j && j < offset + width),
{
    if width == 0 || offset > 32 || width > 32 - offset {
        return None;
    }
    let end = offset + width;
    let mut m: u32 = 0;
    let mut b: u32 = offset;
    proof {
        assert forall|j: u32| j < 32 implies !bit_set(0u32, j) by {
            assert((0u32 >> j) & 1 != 1) by (bit_vector);
        }
    }
    while b < end
        invariant
            offset <= b <= end,
            end == offset + width,
            end <= 32,
            forall|j: u32| j < 32 ==> (#[trigger] bit_set(m, j) <==> offset <= j && j < b),
        decreases end - b,
    {
        proof {
            assert forall|j: u32| j < 32 implies (#[trigger] bit_set(m | (1u32 << b), j) <==> offset
                <= j && j < b + 1) by {
                lemma_set_bit(m, b, j);
            }
        }
        m = m | (1u32 << b);
        b += 1;
    }
    Some(m)
}

} // verus!
