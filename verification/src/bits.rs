//! Bit fields of 64-bit registers.

use vstd::prelude::*;

verus! {

/// The mask of a field of `bit_count` bits whose highest bit is `start_bit`.
pub open spec fn field_mask(start_bit: u64, bit_count: u64) -> u64 {
    (0xffff_ffff_ffff_ffffu64 << ((64 - bit_count) as u64)) >> ((63 - start_bit) as u64)
}

/// `val` with the field replaced by `set_val`.
pub open spec fn with_field(val: u64, set_val: u64, start_bit: u64, bit_count: u64) -> u64 {
    (val & !field_mask(start_bit, bit_count)) | (set_val << ((start_bit + 1 - bit_count) as u64))
}

/// The field of `bit_count` bits whose highest bit is `start_bit`.
pub open spec fn field_of(val: u64, start_bit: u64, bit_count: u64) -> u64 {
    (val & field_mask(start_bit, bit_count)) >> ((start_bit + 1 - bit_count) as u64)
}

/// Whether bit `bit_index` of `val` is set.
pub open spec fn mask_bit(val: u64, bit_index: u64) -> bool {
    val & (1u64 << bit_index) != 0
}

/// Whether `set_val` fits in a field of `bit_count` bits.
pub open spec fn fits(set_val: u64, bit_count: u64) -> bool {
    bit_count >= 64 || set_val < (1u64 << bit_count)
}

/// Replaces a field of `val` by `set_val`. The field is `bit_count` bits
/// wide and `start_bit` is its highest bit, so it covers bits
/// `start_bit + 1 - bit_count ..= start_bit`. Where `set_val` fits in
/// the field, the field then holds `set_val` and the bits outside it
/// stay; bits of `set_val` beyond the field are set in `val` above it.
pub fn set_bits(val: &mut u64, set_val: u64, start_bit: usize, bit_count: usize)
    requires
        1 <= bit_count <= start_bit + 1,
        start_bit < 64,
    ensures
        *final(val) == with_field(*old(val), set_val, start_bit as u64, bit_count as u64),
        fits(set_val, bit_count as u64) ==> field_of(
            *final(val),
            start_bit as u64,
            bit_count as u64,
        ) == set_val,
        fits(set_val, bit_count as u64) ==> forall|j: u64|
            j < 64 && !(start_bit + 1 - bit_count <= j <= start_bit) ==> mask_bit(*final(val), j)
                == mask_bit(*old(val), j),
{
    let max_bits: usize = 64;
    let all: u64 = 0xffff_ffff_ffff_ffff;
    let hi: u64 = (max_bits - bit_count) as u64;
    let lo: u64 = (max_bits - 1 - start_bit) as u64;
    let shift: u64 = (start_bit + 1 - bit_count) as u64;
    let mask: u64 = (all << hi) >> lo;
    let inv_mask: u64 = !mask;
    let old_val: u64 = *val;
    let sb: u64 = start_bit as u64;
    let bc: u64 = bit_count as u64;
    proof {
        if fits(set_val, bc) {
            assert(((((old_val & !((all << hi) >> lo)) | (set_val << shift)) & ((all << hi)
                >> lo)) >> shift) == set_val) by (bit_vector)
                requires
                    1 <= bc <= sb + 1,
                    sb < 64,
                    hi == 64 - bc,
                    lo == 63 - sb,
                    shift == sb + 1 - bc,
                    all == 0xffff_ffff_ffff_ffffu64,
                    bc >= 64 || set_val < (1u64 << bc),
            ;
            assert forall|j: u64| j < 64 && !(sb + 1 - bc <= j <= sb) implies (((old_val & !((
            all << hi) >> lo)) | (set_val << shift)) & (1u64 << j) != 0) == (old_val & (1u64
                << j) != 0) by {
                assert((((old_val & !((all << hi) >> lo)) | (set_val << shift)) & (1u64 << j)
                    != 0) == (old_val & (1u64 << j) != 0)) by (bit_vector)
                    requires
                        1 <= bc <= sb + 1,
                        sb < 64,
                        j < 64,
                        !(sb + 1 - bc <= j <= sb),
                        hi == 64 - bc,
                        lo == 63 - sb,
                        shift == sb + 1 - bc,
                        all == 0xffff_ffff_ffff_ffffu64,
                        bc >= 64 || set_val < (1u64 << bc),
                ;
            }
        }
    }
    *val = *val & inv_mask;
    *val = *val | (set_val << shift);
}

/// Whether bit `bit_index` of `val` is set.
pub fn get_bit(val: u64, bit_index: usize) -> (r: bool)
    requires
        bit_index < 64,
    ensures
        r == mask_bit(val, bit_index as u64),
{
    let mask: u64 = 1u64 << (bit_index as u64);
    let masked_val: u64 = val & mask;
    masked_val != 0
}

} // verus!
