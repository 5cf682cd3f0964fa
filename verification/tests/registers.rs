use dbgrs::error::DebugError;
use dbgrs::registers::{display_all, display_named, get_register, ThreadContext};

fn sample() -> ThreadContext {
    let mut c = ThreadContext::zeroed();
    c.rax = 0x1;
    c.rbx = 0x2;
    c.rcx = 0x3;
    c.rdx = 0x4;
    c.rsi = 0x5;
    c.rdi = 0x6;
    c.rip = 0x0000_0001_4000_1000;
    c.rsp = 0x8;
    c.rbp = 0x9;
    c.r8 = 0x10;
    c.r9 = 0x11;
    c.r10 = 0x12;
    c.r11 = 0x13;
    c.r12 = 0x14;
    c.r13 = 0x15;
    c.r14 = 0x16;
    c.r15 = 0xffff_ffff_ffff_ffff;
    c.eflags = 0x246;
    c
}

#[test]
fn every_register_has_its_name() {
    let c = sample();
    assert_eq!(get_register(&c, "rax"), Ok(0x1));
    assert_eq!(get_register(&c, "rbx"), Ok(0x2));
    assert_eq!(get_register(&c, "rcx"), Ok(0x3));
    assert_eq!(get_register(&c, "rdx"), Ok(0x4));
    assert_eq!(get_register(&c, "rsi"), Ok(0x5));
    assert_eq!(get_register(&c, "rdi"), Ok(0x6));
    assert_eq!(get_register(&c, "rip"), Ok(0x0000_0001_4000_1000));
    assert_eq!(get_register(&c, "rsp"), Ok(0x8));
    assert_eq!(get_register(&c, "rbp"), Ok(0x9));
    assert_eq!(get_register(&c, "r8"), Ok(0x10));
    assert_eq!(get_register(&c, "r9"), Ok(0x11));
    assert_eq!(get_register(&c, "r10"), Ok(0x12));
    assert_eq!(get_register(&c, "r11"), Ok(0x13));
    assert_eq!(get_register(&c, "r12"), Ok(0x14));
    assert_eq!(get_register(&c, "r13"), Ok(0x15));
    assert_eq!(get_register(&c, "r14"), Ok(0x16));
    assert_eq!(get_register(&c, "r15"), Ok(0xffff_ffff_ffff_ffff));
    assert_eq!(get_register(&c, "eflags"), Ok(0x246));
}

#[test]
fn register_names_ignore_case() {
    let c = sample();
    assert_eq!(get_register(&c, "RIP"), Ok(0x0000_0001_4000_1000));
    assert_eq!(get_register(&c, "Rax"), Ok(0x1));
    assert_eq!(get_register(&c, "EFlags"), Ok(0x246));
}

#[test]
fn unknown_register_is_an_error() {
    let c = sample();
    assert_eq!(get_register(&c, "eax"), Err(DebugError::UnknownRegister));
    assert_eq!(get_register(&c, ""), Err(DebugError::UnknownRegister));
    assert_eq!(get_register(&c, "rax "), Err(DebugError::UnknownRegister));
    assert_eq!(get_register(&c, "r16"), Err(DebugError::UnknownRegister));
}

#[test]
fn display_all_has_six_lines() {
    let lines = display_all(&sample());
    assert_eq!(
        lines,
        vec![
            "rax=0x0000000000000001 rbx=0x0000000000000002 rcx=0x0000000000000003".to_string(),
            "rdx=0x0000000000000004 rsi=0x0000000000000005 rdi=0x0000000000000006".to_string(),
            "rip=0x0000000140001000 rsp=0x0000000000000008 rbp=0x0000000000000009".to_string(),
            " r8=0x0000000000000010  r9=0x0000000000000011 r10=0x0000000000000012".to_string(),
            "r11=0x0000000000000013 r12=0x0000000000000014 r13=0x0000000000000015".to_string(),
            "r14=0x0000000000000016 r15=0xffffffffffffffff eflags=0x00000246".to_string(),
        ]
    );
}

#[test]
fn display_named_shows_the_lower_case_name() {
    let c = sample();
    assert_eq!(display_named(&c, "RIP"), "rip=0x0000000140001000");
    assert_eq!(display_named(&c, "eflags"), "eflags=0x0000000000000246");
    assert_eq!(display_named(&c, "Foo"), "Unrecognized register name: Foo");
}

#[test]
fn set_op_register_follows_the_encoding_order() {
    let mut c = ThreadContext::zeroed();
    for reg in 0u8..16 {
        c.set_op_register(reg, 100 + reg as u64);
    }
    assert_eq!(c.rax, 100);
    assert_eq!(c.rcx, 101);
    assert_eq!(c.rdx, 102);
    assert_eq!(c.rbx, 103);
    assert_eq!(c.rsp, 104);
    assert_eq!(c.rbp, 105);
    assert_eq!(c.rsi, 106);
    assert_eq!(c.rdi, 107);
    assert_eq!(c.r8, 108);
    assert_eq!(c.r15, 115);
    assert_eq!(c.rip, 0);
}
