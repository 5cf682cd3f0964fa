use dbgrs::text::{
    ascii_lower, chars_equal, chars_of, eq_ignore_case, find_first, find_last, push_dec, push_hex,
    push_str, string_of, to_lower,
};

fn hex(v: u64, width: usize, upper: bool) -> String {
    let mut s = String::new();
    push_hex(&mut s, v, width, upper);
    s
}

fn dec(v: u64, width: usize) -> String {
    let mut s = String::new();
    push_dec(&mut s, v, width);
    s
}

#[test]
fn hex_matches_the_standard_formatter() {
    for v in [0u64, 1, 9, 10, 15, 16, 255, 256, 0x1234_abcd, u64::MAX, 0x8000_0000_0000_0000] {
        assert_eq!(hex(v, 0, false), format!("{:x}", v));
        assert_eq!(hex(v, 0, true), format!("{:X}", v));
        assert_eq!(hex(v, 16, false), format!("{:016x}", v));
        assert_eq!(hex(v, 16, true), format!("{:016X}", v));
        assert_eq!(hex(v, 2, true), format!("{:02X}", v));
        assert_eq!(hex(v, 8, false), format!("{:08x}", v));
    }
}

#[test]
fn hex_has_exact_digits() {
    assert_eq!(hex(0x140001000, 16, false), "0000000140001000");
    assert_eq!(hex(0xAB, 0, true), "AB");
    assert_eq!(hex(0xab, 0, false), "ab");
    assert_eq!(hex(0, 0, true), "0");
    assert_eq!(hex(0, 4, true), "0000");
}

#[test]
fn dec_matches_the_standard_formatter() {
    for v in [0u64, 1, 9, 10, 99, 100, 12345, u64::MAX] {
        assert_eq!(dec(v, 0), format!("{}", v));
        assert_eq!(dec(v, 3), format!("{:3}", v));
        assert_eq!(dec(v, 5), format!("{:5}", v));
    }
    assert_eq!(dec(7, 3), "  7");
    assert_eq!(dec(18446744073709551615, 0), "18446744073709551615");
}

#[test]
fn push_appends_to_what_is_there() {
    let mut s = String::from("x=");
    push_hex(&mut s, 0x1f, 4, false);
    push_str(&mut s, ";");
    push_dec(&mut s, 42, 0);
    assert_eq!(s, "x=001f;42");
}

#[test]
fn chars_round_trip() {
    let c = chars_of("héllo!");
    assert_eq!(c, vec!['h', 'é', 'l', 'l', 'o', '!']);
    assert_eq!(string_of(&c, 0, c.len()), "héllo!");
    assert_eq!(string_of(&c, 1, 3), "él");
    assert_eq!(string_of(&c, 2, 2), "");
}

#[test]
fn lower_folds_ascii_letters_only() {
    assert_eq!(ascii_lower('A'), 'a');
    assert_eq!(ascii_lower('Z'), 'z');
    assert_eq!(ascii_lower('a'), 'a');
    assert_eq!(ascii_lower('@'), '@');
    assert_eq!(ascii_lower('['), '[');
    assert_eq!(ascii_lower('É'), 'É');
    assert_eq!(to_lower("KERNEL32.Dll"), chars_of("kernel32.dll"));
}

#[test]
fn equality_of_strings() {
    assert!(chars_equal(&chars_of("abc"), &chars_of("abc")));
    assert!(!chars_equal(&chars_of("abc"), &chars_of("abd")));
    assert!(!chars_equal(&chars_of("abc"), &chars_of("ab")));
    assert!(chars_equal(&chars_of(""), &chars_of("")));
    assert!(chars_equal(&chars_of("x"), &chars_of("x")));
    assert!(!chars_equal(&chars_of("x"), &chars_of("X")));
}

#[test]
fn equality_without_case() {
    let a = chars_of("C:\\Win\\Hello.EXE");
    assert!(eq_ignore_case(&a, 7, a.len(), &chars_of("hello.exe")));
    assert!(eq_ignore_case(&a, 7, 12, &chars_of("HELLO")));
    assert!(!eq_ignore_case(&a, 7, 12, &chars_of("hell")));
    assert!(!eq_ignore_case(&a, 7, 12, &chars_of("hellp")));
}

#[test]
fn finding_characters() {
    let a = chars_of("a!b!c");
    assert_eq!(find_first(&a, '!', 0), 1);
    assert_eq!(find_first(&a, '!', 2), 3);
    assert_eq!(find_first(&a, '?', 0), 5);
    assert_eq!(find_last(&a, '!'), Some(3));
    assert_eq!(find_last(&a, '?'), None);
    assert_eq!(find_last(&chars_of(""), 'x'), None);
}
