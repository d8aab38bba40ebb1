//! Bit-packed opacity masks: row-major, one bit per texel, most significant
//! bit first within each byte. A set bit marks an opaque texel.

use vstd::prelude::*;

verus! {

/// The bit stored for texel number `index`: 1 for opaque, 0 for transparent.
/// A texel outside the buffer reads as transparent.
pub open spec fn bit_at(mask: Seq<u8>, index: int) -> u8 {
    if 0 <= index && index / 8 < mask.len() {
        (mask[index / 8] >> ((7 - index % 8) as u8)) & 1u8
    } else {
        0u8
    }
}

/// Whether texel number `index` is opaque.
pub open spec fn opaque_at(mask: Seq<u8>, index: int) -> bool {
    bit_at(mask, index) == 1u8
}

/// Reads the opacity bit of texel number `index`.
///
/// This is the only place where the bit layout is interpreted. An index past
/// the last byte of the buffer yields 0 instead of a fault.
pub fn read_bit(mask: &Vec<u8>, index: u64) -> (bit: u8)
    ensures
        bit == bit_at(mask@, index as int),
        bit == 0 || bit == 1,
{
    let byte_index: u64 = index / 8;
    if byte_index >= mask.len() as u64 {
        return 0;
    }
    let byte: u8 = mask[byte_index as usize];
    let shift: u8 = (7 - index % 8) as u8;
    let bit: u8 = (byte >> shift) & 1;
    assert(((byte >> shift) & 1u8) == 0u8 || ((byte >> shift) & 1u8) == 1u8) by (bit_vector);
    bit
}

/// Setting or clearing one bit of a byte changes that bit and no other.
proof fn lemma_bit_update(byte: u8, target: u8, probe: u8)
    requires
        target < 8,
        probe < 8,
    ensures
        ((byte | (1u8 << target)) >> target) & 1u8 == 1u8,
        ((byte & !(1u8 << target)) >> target) & 1u8 == 0u8,
        probe != target ==> ((byte | (1u8 << target)) >> probe) & 1u8 == (byte >> probe) & 1u8,
        probe != target ==> ((byte & !(1u8 << target)) >> probe) & 1u8 == (byte >> probe) & 1u8,
{
    assert(((byte | (1u8 << target)) >> target) & 1u8 == 1u8) by (bit_vector)
        requires
            target < 8,
    ;
    assert(((byte & !(1u8 << target)) >> target) & 1u8 == 0u8) by (bit_vector)
        requires
            target < 8,
    ;
    assert(probe != target ==> ((byte | (1u8 << target)) >> probe) & 1u8 == (byte >> probe) & 1u8)
        by (bit_vector)
        requires
            target < 8,
            probe < 8,
    ;
    assert(probe != target ==> ((byte & !(1u8 << target)) >> probe) & 1u8 == (byte >> probe) & 1u8)
        by (bit_vector)
        requires
            target < 8,
            probe < 8,
    ;
}

/// Marks texel number `index` as opaque or transparent and leaves every
/// other texel as it was. A texel outside the buffer cannot be written: the
/// buffer then stays unchanged and `false` is returned.
pub fn write_bit(mask: &mut Vec<u8>, index: u64, opaque: bool) -> (written: bool)
    ensures
        final(mask)@.len() == old(mask)@.len(),
        written == (index / 8 < old(mask)@.len()),
        written ==> opaque_at(final(mask)@, index as int) == opaque,
        !written ==> final(mask)@ == old(mask)@,
        forall|other: int| other != index ==> bit_at(final(mask)@, other) == bit_at(old(mask)@, other),
{
    let byte_index: u64 = index / 8;
    if byte_index >= mask.len() as u64 {
        return false;
    }
    let slot: usize = byte_index as usize;
    let byte: u8 = mask[slot];
    let shift: u8 = (7 - index % 8) as u8;
    let updated: u8 = if opaque {
        byte | (1u8 << shift)
    } else {
        byte & !(1u8 << shift)
    };
    let ghost before = mask@;
    mask.set(slot, updated);
    proof {
        lemma_bit_update(byte, shift, shift);
        assert forall|other: int| other != index implies bit_at(mask@, other) == bit_at(before, other) by {
            if 0 <= other && other / 8 == slot {
                lemma_bit_update(byte, shift, (7 - other % 8) as u8);
            }
        }
    }
    true
}

/// Whether texel number `index` of an image given as rows of red, green,
/// blue and alpha bytes is more opaque than `threshold`.
pub open spec fn alpha_above(pixels: Seq<u8>, index: int, threshold: u8) -> bool {
    0 <= index && 4 * index + 3 < pixels.len() && pixels[4 * index + 3] > threshold
}

/// A buffer of `length` zero bytes.
pub fn blank_mask(length: usize) -> (mask: Vec<u8>)
    ensures
        mask@.len() == length,
        forall|index: int| !opaque_at(mask@, index),
{
    let mut mask: Vec<u8> = Vec::with_capacity(length);
    let mut filled: usize = 0;
    while filled < length
        invariant
            filled <= length,
            mask@.len() == filled,
            forall|k: int| 0 <= k < filled ==> mask@[k] == 0u8,
        decreases length - filled,
    {
        mask.push(0u8);
        filled = filled + 1;
    }
    assert forall|index: int| !opaque_at(mask@, index) by {
        if 0 <= index && index / 8 < mask@.len() {
            let shift = (7 - index % 8) as u8;
            assert((0u8 >> shift) & 1u8 == 0u8) by (bit_vector);
        }
    }
    mask
}

/// Builds the mask of an image given as rows of red, green, blue and alpha
/// bytes: one bit per whole pixel, set where the alpha byte is above
/// `threshold`.
pub fn mask_from_rgba(pixels: &[u8], threshold: u8) -> (mask: Vec<u8>)
    ensures
        mask@.len() == (pixels@.len() / 4 + 7) / 8,
        forall|index: int| opaque_at(mask@, index) == alpha_above(pixels@, index, threshold),
{
    let texels: usize = pixels.len() / 4;
    let length: usize = texels / 8 + (if texels % 8 == 0 {
        0
    } else {
        1
    });
    let mut mask = blank_mask(length);
    let mut index: usize = 0;
    while index < texels
        invariant
            index <= texels,
            texels == pixels.len() / 4,
            mask@.len() == length,
            length == (texels + 7) / 8,
            forall|k: int| 0 <= k < index ==> opaque_at(mask@, k) == alpha_above(pixels@, k, threshold),
            forall|k: int| k < 0 || k >= index ==> !opaque_at(mask@, k),
        decreases texels - index,
    {
        if pixels[4 * index + 3] > threshold {
            let ghost before = mask@;
            let written = write_bit(&mut mask, index as u64, true);
            assert(written);
            assert forall|k: int| 0 <= k < index + 1 implies opaque_at(mask@, k) == alpha_above(
                pixels@,
                k,
                threshold,
            ) by {
                if k != index {
                    assert(bit_at(mask@, k) == bit_at(before, k));
                    assert(opaque_at(before, k) == alpha_above(pixels@, k, threshold));
                }
            }
            assert forall|k: int| k < 0 || k >= index + 1 implies !opaque_at(mask@, k) by {
                assert(bit_at(mask@, k) == bit_at(before, k));
                assert(!opaque_at(before, k));
            }
        }
        index = index + 1;
    }
    mask
}

} // verus!
