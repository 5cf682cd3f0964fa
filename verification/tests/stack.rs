use dbgrs::error::{DebugError, ErrorKind};
use dbgrs::registers::ThreadContext;
use dbgrs::snapshot::MemorySnapshot;
use dbgrs::stack::{
    apply_unwind_ops, find_runtime_function, get_unwind_ops, UnwindCode, UnwindOp,
    RUNTIME_FUNCTION, UNWIND_CODE,
};

fn slot(offset: u8, op: u8, info: u8) -> u16 {
    offset as u16 | (op as u16) << 8 | (info as u16) << 12
}

#[test]
fn unwind_code_fields() {
    let c = UNWIND_CODE::from_slot(0x5204);
    assert_eq!(c.code_offset, 0x04);
    assert_eq!(c.unwind_op_info, 0x52);
    assert_eq!(c.op(), 2);
    assert_eq!(c.info(), 5);
}

#[test]
fn one_slot_operations() {
    assert_eq!(
        get_unwind_ops(&[slot(1, 0, 5)]),
        Ok(vec![UnwindCode { code_offset: 1, op: UnwindOp::PushNonVolatile { reg: 5 } }])
    );
    assert_eq!(
        get_unwind_ops(&[slot(4, 2, 5)]),
        Ok(vec![UnwindCode { code_offset: 4, op: UnwindOp::Alloc { size: 0x30 } }])
    );
    assert_eq!(
        get_unwind_ops(&[slot(4, 2, 0)]),
        Ok(vec![UnwindCode { code_offset: 4, op: UnwindOp::Alloc { size: 8 } }])
    );
    assert_eq!(
        get_unwind_ops(&[slot(4, 2, 15)]),
        Ok(vec![UnwindCode { code_offset: 4, op: UnwindOp::Alloc { size: 128 } }])
    );
    assert_eq!(
        get_unwind_ops(&[slot(9, 3, 0)]),
        Ok(vec![UnwindCode { code_offset: 9, op: UnwindOp::SetFpreg }])
    );
    assert_eq!(
        get_unwind_ops(&[slot(0, 10, 0)]),
        Ok(vec![UnwindCode { code_offset: 0, op: UnwindOp::PushMachFrame { error_code: false } }])
    );
    assert_eq!(
        get_unwind_ops(&[slot(0, 10, 1)]),
        Ok(vec![UnwindCode { code_offset: 0, op: UnwindOp::PushMachFrame { error_code: true } }])
    );
}

#[test]
fn operations_with_operands() {
    assert_eq!(
        get_unwind_ops(&[slot(7, 1, 0), 0x20]),
        Ok(vec![UnwindCode { code_offset: 7, op: UnwindOp::Alloc { size: 0x100 } }])
    );
    assert_eq!(
        get_unwind_ops(&[slot(7, 1, 0), 0xffff]),
        Ok(vec![UnwindCode { code_offset: 7, op: UnwindOp::Alloc { size: 0x7fff8 } }])
    );
    assert_eq!(
        get_unwind_ops(&[slot(7, 1, 1), 0x5678, 0x1234]),
        Ok(vec![UnwindCode { code_offset: 7, op: UnwindOp::Alloc { size: 0x1234_5678 } }])
    );
    assert_eq!(
        get_unwind_ops(&[slot(7, 1, 1), 0xffff, 0xffff]),
        Ok(vec![UnwindCode { code_offset: 7, op: UnwindOp::Alloc { size: 0xffff_ffff } }])
    );
    assert_eq!(
        get_unwind_ops(&[slot(8, 4, 3), 0x40]),
        Ok(vec![
            UnwindCode { code_offset: 8, op: UnwindOp::SaveNonVolatile { reg: 3, offset: 0x40 } },
        ])
    );
    assert_eq!(
        get_unwind_ops(&[slot(8, 5, 12), 0x0001, 0x0002]),
        Ok(vec![
            UnwindCode {
                code_offset: 8,
                op: UnwindOp::SaveNonVolatile { reg: 12, offset: 0x0002_0001 },
            },
        ])
    );
    assert_eq!(
        get_unwind_ops(&[slot(8, 8, 6), 0x10]),
        Ok(vec![UnwindCode { code_offset: 8, op: UnwindOp::SaveXmm128 { reg: 6, offset: 0x10 } }])
    );
    assert_eq!(
        get_unwind_ops(&[slot(8, 9, 7), 0x10, 0x1]),
        Ok(vec![
            UnwindCode { code_offset: 8, op: UnwindOp::SaveXmm128 { reg: 7, offset: 0x1_0010 } },
        ])
    );
}

#[test]
fn a_whole_prolog() {
    // sub rsp, 0x30 at offset 5; push rbp at offset 1; latest first.
    let ops = get_unwind_ops(&[slot(5, 2, 5), slot(1, 0, 5)]).unwrap();
    assert_eq!(
        ops,
        vec![
            UnwindCode { code_offset: 5, op: UnwindOp::Alloc { size: 0x30 } },
            UnwindCode { code_offset: 1, op: UnwindOp::PushNonVolatile { reg: 5 } },
        ]
    );
    assert_eq!(get_unwind_ops(&[]), Ok(vec![]));
}

#[test]
fn cut_off_operands_are_errors() {
    assert_eq!(get_unwind_ops(&[slot(0, 1, 0)]), Err(DebugError::AllocLargeIncomplete));
    assert_eq!(get_unwind_ops(&[slot(0, 1, 1), 1]), Err(DebugError::AllocLargeIncomplete));
    assert_eq!(get_unwind_ops(&[slot(0, 4, 0)]), Err(DebugError::SaveNonvolIncomplete));
    assert_eq!(get_unwind_ops(&[slot(0, 5, 0), 1]), Err(DebugError::SaveNonvolFarIncomplete));
    assert_eq!(get_unwind_ops(&[slot(0, 8, 0)]), Err(DebugError::SaveXmm128Incomplete));
    assert_eq!(get_unwind_ops(&[slot(0, 9, 0), 1]), Err(DebugError::SaveXmm128FarIncomplete));
    assert_eq!(
        get_unwind_ops(&[slot(0, 0, 1), slot(0, 9, 0)]),
        Err(DebugError::SaveXmm128FarIncomplete)
    );
    assert_eq!(DebugError::AllocLargeIncomplete.kind(), ErrorKind::Format);
}

#[test]
fn unknown_operations_are_errors() {
    for op in [6u8, 7, 11, 12, 13, 14, 15] {
        assert_eq!(get_unwind_ops(&[slot(0, op, 0)]), Err(DebugError::UnrecognizedUnwindOp));
    }
    assert_eq!(get_unwind_ops(&[slot(0, 1, 2), 0, 0]), Err(DebugError::UnrecognizedUnwindOp));
    assert_eq!(
        get_unwind_ops(&[slot(0, 0, 0), slot(0, 6, 0), slot(0, 0, 0)]),
        Err(DebugError::UnrecognizedUnwindOp)
    );
}

#[test]
fn operand_slots_are_not_read_as_operations() {
    // The operand 0x0600 would be an unknown operation if it were read as one.
    assert_eq!(
        get_unwind_ops(&[slot(3, 4, 5), 0x0600, slot(1, 0, 3)]),
        Ok(vec![
            UnwindCode { code_offset: 3, op: UnwindOp::SaveNonVolatile { reg: 5, offset: 0x600 } },
            UnwindCode { code_offset: 1, op: UnwindOp::PushNonVolatile { reg: 3 } },
        ])
    );
}

fn table() -> Vec<RUNTIME_FUNCTION> {
    vec![
        RUNTIME_FUNCTION { BeginAddress: 0x1000, EndAddress: 0x1040, UnwindInfo: 0x5000 },
        RUNTIME_FUNCTION { BeginAddress: 0x1040, EndAddress: 0x1100, UnwindInfo: 0x5010 },
        RUNTIME_FUNCTION { BeginAddress: 0x2000, EndAddress: 0x2001, UnwindInfo: 0x5020 },
        RUNTIME_FUNCTION { BeginAddress: 0x3000, EndAddress: 0x3000, UnwindInfo: 0x5030 },
    ]
}

#[test]
fn runtime_function_by_address() {
    let t = table();
    assert_eq!(find_runtime_function(0x1000, &t), Some(&t[0]));
    assert_eq!(find_runtime_function(0x103f, &t), Some(&t[0]));
    assert_eq!(find_runtime_function(0x1040, &t), Some(&t[1]));
    assert_eq!(find_runtime_function(0x10ff, &t), Some(&t[1]));
    assert_eq!(find_runtime_function(0x2000, &t), Some(&t[2]));
}

#[test]
fn no_runtime_function_outside_the_ranges() {
    let t = table();
    assert_eq!(find_runtime_function(0xfff, &t), None);
    assert_eq!(find_runtime_function(0x1100, &t), None);
    assert_eq!(find_runtime_function(0x1fff, &t), None);
    assert_eq!(find_runtime_function(0x2001, &t), None);
    // A function that starts where it ends holds no address, not even its start.
    assert_eq!(find_runtime_function(0x3000, &t), None);
    assert_eq!(find_runtime_function(0xffff_ffff, &t), None);
    assert_eq!(find_runtime_function(0, &[]), None);
}

#[test]
fn runtime_function_in_every_sorted_table_of_three() {
    // Against a linear scan, for all small sorted tables without overlap.
    for a in 0u32..4 {
        for b in a..6 {
            for c in b..8 {
                let t = vec![
                    RUNTIME_FUNCTION { BeginAddress: a, EndAddress: a + 2, UnwindInfo: 1 },
                    RUNTIME_FUNCTION { BeginAddress: b + 2, EndAddress: b + 3, UnwindInfo: 2 },
                    RUNTIME_FUNCTION { BeginAddress: c + 3, EndAddress: c + 6, UnwindInfo: 3 },
                ];
                for addr in 0u32..16 {
                    let expect = t
                        .iter()
                        .rev()
                        .find(|f| f.BeginAddress <= addr)
                        .filter(|f| addr < f.EndAddress);
                    assert_eq!(find_runtime_function(addr, &t), expect);
                }
            }
        }
    }
}

fn stack_memory() -> MemorySnapshot {
    let mut m = MemorySnapshot::new();
    let mut bytes: Vec<u8> = Vec::new();
    for i in 0u64..16 {
        bytes.extend_from_slice(&(0x1111_0000 + i).to_le_bytes());
    }
    m.add_region(0x8000, bytes);
    m
}

#[test]
fn undoing_a_prolog() {
    let m = stack_memory();
    let mut c = ThreadContext::zeroed();
    c.rip = 0x1010;
    c.rsp = 0x8000;
    c.rbp = 0x5555;
    c.rbx = 0x6666;
    let ops = vec![
        UnwindCode { code_offset: 9, op: UnwindOp::SaveNonVolatile { reg: 3, offset: 0x10 } },
        UnwindCode { code_offset: 5, op: UnwindOp::Alloc { size: 0x30 } },
        UnwindCode { code_offset: 1, op: UnwindOp::PushNonVolatile { reg: 5 } },
    ];
    let r = apply_unwind_ops(&c, &ops, 0x1000, &m).unwrap();
    assert_eq!(r.rsp, 0x8038);
    assert_eq!(r.rbx, 0x1111_0002);
    assert_eq!(r.rbp, 0x1111_0006);
    assert_eq!(r.rip, 0x1010);
    assert_eq!(r.rax, 0);
}

#[test]
fn only_steps_that_had_run_are_undone() {
    let m = stack_memory();
    let ops = vec![
        UnwindCode { code_offset: 9, op: UnwindOp::SaveNonVolatile { reg: 3, offset: 0x10 } },
        UnwindCode { code_offset: 5, op: UnwindOp::Alloc { size: 0x30 } },
        UnwindCode { code_offset: 1, op: UnwindOp::PushNonVolatile { reg: 5 } },
    ];
    let mut c = ThreadContext::zeroed();
    c.rsp = 0x8000;
    c.rbx = 0x6666;
    c.rbp = 0x5555;
    // At the function's first byte nothing has run.
    c.rip = 0x1000;
    assert_eq!(apply_unwind_ops(&c, &ops, 0x1000, &m), Ok(c));
    // After the push only the push is undone.
    c.rip = 0x1001;
    let r = apply_unwind_ops(&c, &ops, 0x1000, &m).unwrap();
    assert_eq!((r.rsp, r.rbp, r.rbx), (0x8008, 0x1111_0000, 0x6666));
    c.rip = 0x1004;
    let r = apply_unwind_ops(&c, &ops, 0x1000, &m).unwrap();
    assert_eq!((r.rsp, r.rbp, r.rbx), (0x8008, 0x1111_0000, 0x6666));
    // After the allocation, the allocation and the push.
    c.rip = 0x1005;
    let r = apply_unwind_ops(&c, &ops, 0x1000, &m).unwrap();
    assert_eq!((r.rsp, r.rbp, r.rbx), (0x8038, 0x1111_0006, 0x6666));
}

#[test]
fn steps_without_effect_on_the_frame() {
    let m = stack_memory();
    let mut c = ThreadContext::zeroed();
    c.rip = 0x1100;
    c.rsp = 0x8000;
    let ops = vec![
        UnwindCode { code_offset: 3, op: UnwindOp::SaveXmm128 { reg: 6, offset: 0x20 } },
        UnwindCode { code_offset: 2, op: UnwindOp::SetFpreg },
        UnwindCode { code_offset: 1, op: UnwindOp::PushMachFrame { error_code: true } },
    ];
    assert_eq!(apply_unwind_ops(&c, &ops, 0x1000, &m), Ok(c));
}

#[test]
fn unreadable_stack_is_an_error() {
    let m = stack_memory();
    let mut c = ThreadContext::zeroed();
    c.rip = 0x1010;
    c.rsp = 0x7000;
    let push = vec![UnwindCode { code_offset: 1, op: UnwindOp::PushNonVolatile { reg: 5 } }];
    assert_eq!(apply_unwind_ops(&c, &push, 0x1000, &m), Err(DebugError::ReadFailed));
    c.rsp = 0x8000;
    let save = vec![
        UnwindCode { code_offset: 1, op: UnwindOp::SaveNonVolatile { reg: 5, offset: 0x7c } },
    ];
    assert_eq!(apply_unwind_ops(&c, &save, 0x1000, &m), Err(DebugError::ReadFailed));
    assert_eq!(DebugError::ReadFailed.kind(), ErrorKind::TargetRead);
}

#[test]
fn stack_pointer_past_the_address_space_is_an_error() {
    let m = stack_memory();
    let mut c = ThreadContext::zeroed();
    c.rip = 0x1010;
    c.rsp = 0xffff_ffff_ffff_fff0;
    let alloc = vec![UnwindCode { code_offset: 1, op: UnwindOp::Alloc { size: 0x30 } }];
    assert_eq!(apply_unwind_ops(&c, &alloc, 0x1000, &m), Err(DebugError::AddressOutOfRange));
    let save = vec![
        UnwindCode { code_offset: 1, op: UnwindOp::SaveNonVolatile { reg: 5, offset: 0x10 } },
    ];
    assert_eq!(apply_unwind_ops(&c, &save, 0x1000, &m), Err(DebugError::AddressOutOfRange));
}

#[test]
fn pushing_the_stack_pointer_reloads_it() {
    let mut m = MemorySnapshot::new();
    m.add_region(0x8000, 0x9000u64.to_le_bytes().to_vec());
    let mut c = ThreadContext::zeroed();
    c.rip = 0x1010;
    c.rsp = 0x8000;
    let push = vec![UnwindCode { code_offset: 1, op: UnwindOp::PushNonVolatile { reg: 4 } }];
    let r = apply_unwind_ops(&c, &push, 0x1000, &m).unwrap();
    assert_eq!(r.rsp, 0x9000);
}

/// One step of a prolog as the compiler emits it, with the offset in the
/// function at which it is complete.
#[derive(Clone, Copy)]
enum Step {
    Push(u8),
    Alloc(u32),
    Save(u8, u32),
}

/// The unwind codes of a prolog, latest step first.
fn encode(prolog: &[(u8, Step)]) -> Vec<u16> {
    let mut slots = Vec::new();
    for (offset, step) in prolog.iter().rev() {
        match *step {
            Step::Push(reg) => slots.push(slot(*offset, 0, reg)),
            Step::Alloc(size) if size % 8 == 0 && (8..=128).contains(&size) => {
                slots.push(slot(*offset, 2, (size / 8 - 1) as u8))
            }
            Step::Alloc(size) if size % 8 == 0 && size / 8 <= 0xffff => {
                slots.push(slot(*offset, 1, 0));
                slots.push((size / 8) as u16);
            }
            Step::Alloc(size) => {
                slots.push(slot(*offset, 1, 1));
                slots.push(size as u16);
                slots.push((size >> 16) as u16);
            }
            Step::Save(reg, at) if at <= 0xffff => {
                slots.push(slot(*offset, 4, reg));
                slots.push(at as u16);
            }
            Step::Save(reg, at) => {
                slots.push(slot(*offset, 5, reg));
                slots.push(at as u16);
                slots.push((at >> 16) as u16);
            }
        }
    }
    slots
}

fn register(c: &ThreadContext, reg: u8) -> u64 {
    [
        c.rax, c.rcx, c.rdx, c.rbx, c.rsp, c.rbp, c.rsi, c.rdi, c.r8, c.r9, c.r10, c.r11, c.r12,
        c.r13, c.r14, c.r15,
    ][reg as usize]
}

/// Runs the steps of the prolog that are complete at `func_offset`,
/// forwards, on a stack of `size` bytes that ends at `top`. Gives the
/// stack pointer and the registers that were stored.
fn run_forwards(
    prolog: &[(u8, Step)],
    func_offset: u8,
    entry: &ThreadContext,
    stack: &mut Vec<u8>,
    bottom: u64,
) -> (u64, Vec<u8>) {
    let mut rsp = entry.rsp;
    let mut stored = Vec::new();
    for (offset, step) in prolog {
        if *offset > func_offset {
            continue;
        }
        match *step {
            Step::Push(reg) => {
                rsp -= 8;
                let at = (rsp - bottom) as usize;
                stack[at..at + 8].copy_from_slice(&register(entry, reg).to_le_bytes());
                stored.push(reg);
            }
            Step::Alloc(size) => rsp -= size as u64,
            Step::Save(reg, place) => {
                let at = (rsp + place as u64 - bottom) as usize;
                stack[at..at + 8].copy_from_slice(&register(entry, reg).to_le_bytes());
                stored.push(reg);
            }
        }
    }
    (rsp, stored)
}

fn check_prolog(prolog: &[(u8, Step)]) {
    let bottom: u64 = 0x10_0000;
    let size: usize = 0x2_0000;
    let mut entry = ThreadContext::zeroed();
    for reg in 0u8..16 {
        entry.set_op_register(reg, 0xe000_0000 + reg as u64);
    }
    entry.rsp = bottom + size as u64 - 0x100;
    let ops = get_unwind_ops(&encode(prolog)).unwrap();
    for func_offset in 0u8..=40 {
        let mut stack = vec![0xccu8; size];
        let (rsp, stored) = run_forwards(prolog, func_offset, &entry, &mut stack, bottom);
        let mut memory = MemorySnapshot::new();
        memory.add_region(bottom, stack);
        // The function body has since changed every register.
        let mut now = ThreadContext::zeroed();
        for reg in 0u8..16 {
            now.set_op_register(reg, 0xbad0_0000 + reg as u64);
        }
        now.rsp = rsp;
        now.rip = 0x40_1000 + func_offset as u64;
        let unwound = apply_unwind_ops(&now, &ops, 0x40_1000, &memory).unwrap();
        assert_eq!(unwound.rsp, entry.rsp);
        assert_eq!(unwound.rip, now.rip);
        for reg in 0u8..16 {
            if reg == 4 {
                continue;
            }
            let expect = if stored.contains(&reg) { register(&entry, reg) } else { register(&now, reg) };
            assert_eq!(register(&unwound, reg), expect);
        }
    }
}

#[test]
fn unwinding_undoes_prologs_run_forwards() {
    check_prolog(&[]);
    check_prolog(&[(1, Step::Push(5)), (5, Step::Alloc(0x30))]);
    check_prolog(&[
        (2, Step::Push(3)),
        (3, Step::Push(5)),
        (5, Step::Push(12)),
        (9, Step::Alloc(0x48)),
        (14, Step::Save(6, 0x20)),
        (19, Step::Save(7, 0x28)),
        (24, Step::Save(15, 0x40)),
    ]);
    check_prolog(&[(7, Step::Alloc(0x1000)), (12, Step::Save(3, 0xff8)), (20, Step::Push(13))]);
    check_prolog(&[(7, Step::Alloc(0x1_0004)), (15, Step::Save(14, 0x1_0000)), (16, Step::Push(3))]);
    check_prolog(&[(4, Step::Alloc(8)), (8, Step::Alloc(128)), (12, Step::Alloc(136))]);
    // The same register stored twice holds its entry value both times.
    check_prolog(&[(1, Step::Push(3)), (4, Step::Alloc(0x20)), (9, Step::Save(3, 0x10))]);
}
