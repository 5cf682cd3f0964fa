use dbgrs::bits::{get_bit, set_bits};

#[test]
fn set_bits_replaces_a_two_bit_field() {
    let mut v: u64 = 0xffff_ffff_ffff_ffff;
    set_bits(&mut v, 0, 19, 2);
    assert_eq!(v, 0xffff_ffff_fff3_ffff);
    set_bits(&mut v, 2, 19, 2);
    assert_eq!(v, 0xffff_ffff_fffb_ffff);
}

#[test]
fn set_bits_sets_and_clears_single_bits() {
    let mut v: u64 = 0;
    set_bits(&mut v, 1, 0, 1);
    assert_eq!(v, 1);
    set_bits(&mut v, 1, 6, 1);
    assert_eq!(v, 0x41);
    set_bits(&mut v, 0, 0, 1);
    assert_eq!(v, 0x40);
    set_bits(&mut v, 1, 63, 1);
    assert_eq!(v, 0x8000_0000_0000_0040);
}

#[test]
fn set_bits_can_replace_the_whole_word() {
    let mut v: u64 = 0x1234;
    set_bits(&mut v, 0xdead_beef_0000_0001, 63, 64);
    assert_eq!(v, 0xdead_beef_0000_0001);
}

#[test]
fn set_bits_leaves_other_bits_alone() {
    let mut v: u64 = 0x0123_4567_89ab_cdef;
    set_bits(&mut v, 0b101, 10, 3);
    assert_eq!(v, 0x0123_4567_89ab_cdef & !(0b111 << 8) | (0b101 << 8));
}

#[test]
fn get_bit_reads_single_bits() {
    assert!(get_bit(0b100, 2));
    assert!(!get_bit(0b100, 1));
    assert!(get_bit(1 << 63, 63));
    assert!(!get_bit(0, 0));
}
