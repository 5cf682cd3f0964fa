//! The register snapshot of one thread and its display.

use vstd::prelude::*;
use crate::error::DebugError;
use crate::text;

verus! {

/// The registers of a stopped thread that the debugger reads or writes.
#[derive(Clone, Copy, Debug, PartialEq, Eq, Structural)]
pub struct ThreadContext {
    pub rax: u64,
    pub rcx: u64,
    pub rdx: u64,
    pub rbx: u64,
    pub rsp: u64,
    pub rbp: u64,
    pub rsi: u64,
    pub rdi: u64,
    pub r8: u64,
    pub r9: u64,
    pub r10: u64,
    pub r11: u64,
    pub r12: u64,
    pub r13: u64,
    pub r14: u64,
    pub r15: u64,
    pub rip: u64,
    pub eflags: u32,
    pub dr0: u64,
    pub dr1: u64,
    pub dr2: u64,
    pub dr3: u64,
    pub dr6: u64,
    pub dr7: u64,
}

impl ThreadContext {
    /// The general-purpose register with the number `reg` of the
    /// instruction encoding (0 is rax, 1 rcx, 2 rdx, 3 rbx, 4 rsp, ...).
    pub open spec fn gpr(self, reg: u8) -> u64 {
        if reg == 0 {
            self.rax
        } else if reg == 1 {
            self.rcx
        } else if reg == 2 {
            self.rdx
        } else if reg == 3 {
            self.rbx
        } else if reg == 4 {
            self.rsp
        } else if reg == 5 {
            self.rbp
        } else if reg == 6 {
            self.rsi
        } else if reg == 7 {
            self.rdi
        } else if reg == 8 {
            self.r8
        } else if reg == 9 {
            self.r9
        } else if reg == 10 {
            self.r10
        } else if reg == 11 {
            self.r11
        } else if reg == 12 {
            self.r12
        } else if reg == 13 {
            self.r13
        } else if reg == 14 {
            self.r14
        } else {
            self.r15
        }
    }

    /// This context with register number `reg` set to `val`.
    pub open spec fn with_gpr(self, reg: u8, val: u64) -> ThreadContext {
        if reg == 0 {
            ThreadContext { rax: val, ..self }
        } else if reg == 1 {
            ThreadContext { rcx: val, ..self }
        } else if reg == 2 {
            ThreadContext { rdx: val, ..self }
        } else if reg == 3 {
            ThreadContext { rbx: val, ..self }
        } else if reg == 4 {
            ThreadContext { rsp: val, ..self }
        } else if reg == 5 {
            ThreadContext { rbp: val, ..self }
        } else if reg == 6 {
            ThreadContext { rsi: val, ..self }
        } else if reg == 7 {
            ThreadContext { rdi: val, ..self }
        } else if reg == 8 {
            ThreadContext { r8: val, ..self }
        } else if reg == 9 {
            ThreadContext { r9: val, ..self }
        } else if reg == 10 {
            ThreadContext { r10: val, ..self }
        } else if reg == 11 {
            ThreadContext { r11: val, ..self }
        } else if reg == 12 {
            ThreadContext { r12: val, ..self }
        } else if reg == 13 {
            ThreadContext { r13: val, ..self }
        } else if reg == 14 {
            ThreadContext { r14: val, ..self }
        } else {
            ThreadContext { r15: val, ..self }
        }
    }

    /// A context with every register zero.
    pub fn zeroed() -> (c: ThreadContext)
        ensures
            c == (ThreadContext {
                rax: 0,
                rcx: 0,
                rdx: 0,
                rbx: 0,
                rsp: 0,
                rbp: 0,
                rsi: 0,
                rdi: 0,
                r8: 0,
                r9: 0,
                r10: 0,
                r11: 0,
                r12: 0,
                r13: 0,
                r14: 0,
                r15: 0,
                rip: 0,
                eflags: 0,
                dr0: 0,
                dr1: 0,
                dr2: 0,
                dr3: 0,
                dr6: 0,
                dr7: 0,
            }),
    {
        ThreadContext {
            rax: 0,
            rcx: 0,
            rdx: 0,
            rbx: 0,
            rsp: 0,
            rbp: 0,
            rsi: 0,
            rdi: 0,
            r8: 0,
            r9: 0,
            r10: 0,
            r11: 0,
            r12: 0,
            r13: 0,
            r14: 0,
            r15: 0,
            rip: 0,
            eflags: 0,
            dr0: 0,
            dr1: 0,
            dr2: 0,
            dr3: 0,
            dr6: 0,
            dr7: 0,
        }
    }

    /// Sets the general-purpose register with number `reg`.
    pub fn set_op_register(&mut self, reg: u8, val: u64)
        requires
            reg < 16,
        ensures
            *final(self) == old(self).with_gpr(reg, val),
    {
        match reg {
            0 => { self.rax = val; },
            1 => { self.rcx = val; },
            2 => { self.rdx = val; },
            3 => { self.rbx = val; },
            4 => { self.rsp = val; },
            5 => { self.rbp = val; },
            6 => { self.rsi = val; },
            7 => { self.rdi = val; },
            8 => { self.r8 = val; },
            9 => { self.r9 = val; },
            10 => { self.r10 = val; },
            11 => { self.r11 = val; },
            12 => { self.r12 = val; },
            13 => { self.r13 = val; },
            14 => { self.r14 = val; },
            _ => { self.r15 = val; },
        }
    }
}

/// The register that a lower-case name stands for.
pub open spec fn register_named(context: ThreadContext, lower: Seq<char>) -> Option<u64> {
    if lower == "rax"@ {
        Some(context.rax)
    } else if lower == "rbx"@ {
        Some(context.rbx)
    } else if lower == "rcx"@ {
        Some(context.rcx)
    } else if lower == "rdx"@ {
        Some(context.rdx)
    } else if lower == "rsi"@ {
        Some(context.rsi)
    } else if lower == "rdi"@ {
        Some(context.rdi)
    } else if lower == "rip"@ {
        Some(context.rip)
    } else if lower == "rsp"@ {
        Some(context.rsp)
    } else if lower == "rbp"@ {
        Some(context.rbp)
    } else if lower == "r8"@ {
        Some(context.r8)
    } else if lower == "r9"@ {
        Some(context.r9)
    } else if lower == "r10"@ {
        Some(context.r10)
    } else if lower == "r11"@ {
        Some(context.r11)
    } else if lower == "r12"@ {
        Some(context.r12)
    } else if lower == "r13"@ {
        Some(context.r13)
    } else if lower == "r14"@ {
        Some(context.r14)
    } else if lower == "r15"@ {
        Some(context.r15)
    } else if lower == "eflags"@ {
        Some(context.eflags as u64)
    } else {
        None
    }
}

/// Whether `lower` spells `name`.
fn is_name(lower: &Vec<char>, name: &str) -> (r: bool)
    ensures
        r == (lower@ == name@),
{
    let n = text::chars_of(name);
    text::chars_equal(lower, &n)
}

/// The register with the lower-case name `lower`.
pub fn lookup_register(context: &ThreadContext, lower: &Vec<char>) -> (r: Option<u64>)
    ensures
        r == register_named(*context, lower@),
{
    if is_name(lower, "rax") {
        Some(context.rax)
    } else if is_name(lower, "rbx") {
        Some(context.rbx)
    } else if is_name(lower, "rcx") {
        Some(context.rcx)
    } else if is_name(lower, "rdx") {
        Some(context.rdx)
    } else if is_name(lower, "rsi") {
        Some(context.rsi)
    } else if is_name(lower, "rdi") {
        Some(context.rdi)
    } else if is_name(lower, "rip") {
        Some(context.rip)
    } else if is_name(lower, "rsp") {
        Some(context.rsp)
    } else if is_name(lower, "rbp") {
        Some(context.rbp)
    } else if is_name(lower, "r8") {
        Some(context.r8)
    } else if is_name(lower, "r9") {
        Some(context.r9)
    } else if is_name(lower, "r10") {
        Some(context.r10)
    } else if is_name(lower, "r11") {
        Some(context.r11)
    } else if is_name(lower, "r12") {
        Some(context.r12)
    } else if is_name(lower, "r13") {
        Some(context.r13)
    } else if is_name(lower, "r14") {
        Some(context.r14)
    } else if is_name(lower, "r15") {
        Some(context.r15)
    } else if is_name(lower, "eflags") {
        Some(context.eflags as u64)
    } else {
        None
    }
}

/// The value of the register called `reg_name`, in any mix of upper and
/// lower case: one of `rax`..`r15`, `rip`, `rsp`, `rbp`, `eflags`.
pub fn get_register(context: &ThreadContext, reg_name: &str) -> (r: Result<u64, DebugError>)
    ensures
        r == match register_named(*context, text::lower_seq(reg_name@)) {
            Some(v) => Ok::<u64, DebugError>(v),
            None => Err::<u64, DebugError>(DebugError::UnknownRegister),
        },
{
    let lower = text::to_lower(reg_name);
    match lookup_register(context, &lower) {
        Some(v) => Ok(v),
        None => Err(DebugError::UnknownRegister),
    }
}

/// `name=0x` and `value` in sixteen hexadecimal digits.
pub open spec fn register_field(name: Seq<char>, value: u64) -> Seq<char> {
    name + "=0x"@ + text::pad_left(text::hex_digits(value as nat, false), 16, '0')
}

/// One line of the register display: three registers, separated by a space.
pub open spec fn register_row(
    n1: Seq<char>,
    v1: u64,
    n2: Seq<char>,
    v2: u64,
    n3: Seq<char>,
    v3: u64,
) -> Seq<char> {
    register_field(n1, v1) + " "@ + register_field(n2, v2) + " "@ + register_field(n3, v3)
}

/// The last line of the register display; `eflags` has eight digits.
pub open spec fn flags_row(context: ThreadContext) -> Seq<char> {
    register_field("r14"@, context.r14) + " "@ + register_field("r15"@, context.r15)
        + " eflags=0x"@ + text::pad_left(
        text::hex_digits(context.eflags as nat, false),
        8,
        '0',
    )
}

/// The six lines of the register display.
pub open spec fn register_display(context: ThreadContext) -> Seq<Seq<char>> {
    seq![
        register_row("rax"@, context.rax, "rbx"@, context.rbx, "rcx"@, context.rcx),
        register_row("rdx"@, context.rdx, "rsi"@, context.rsi, "rdi"@, context.rdi),
        register_row("rip"@, context.rip, "rsp"@, context.rsp, "rbp"@, context.rbp),
        register_row(" r8"@, context.r8, " r9"@, context.r9, "r10"@, context.r10),
        register_row("r11"@, context.r11, "r12"@, context.r12, "r13"@, context.r13),
        flags_row(context),
    ]
}

/// Appends `name=0x` and the value in sixteen digits.
fn push_field(s: &mut String, name: &str, value: u64)
    ensures
        final(s)@ == old(s)@ + register_field(name@, value),
{
    text::push_str(s, name);
    text::push_str(s, "=0x");
    text::push_hex(s, value, 16, false);
    proof {
        assert(s@ =~= old(s)@ + register_field(name@, value));
    }
}

/// One line of the register display.
fn row(n1: &str, v1: u64, n2: &str, v2: u64, n3: &str, v3: u64) -> (s: String)
    ensures
        s@ == register_row(n1@, v1, n2@, v2, n3@, v3),
{
    let mut s = String::new();
    push_field(&mut s, n1, v1);
    text::push_str(&mut s, " ");
    push_field(&mut s, n2, v2);
    text::push_str(&mut s, " ");
    push_field(&mut s, n3, v3);
    proof {
        assert(s@ =~= register_row(n1@, v1, n2@, v2, n3@, v3));
    }
    s
}

/// The register display: all general registers, `rip` and `eflags`, three to a line.
pub fn display_all(context: &ThreadContext) -> (lines: Vec<String>)
    ensures
        lines@.map_values(|l: String| l@) == register_display(*context),
{
    let mut lines: Vec<String> = Vec::new();
    lines.push(row("rax", context.rax, "rbx", context.rbx, "rcx", context.rcx));
    lines.push(row("rdx", context.rdx, "rsi", context.rsi, "rdi", context.rdi));
    lines.push(row("rip", context.rip, "rsp", context.rsp, "rbp", context.rbp));
    lines.push(row(" r8", context.r8, " r9", context.r9, "r10", context.r10));
    lines.push(row("r11", context.r11, "r12", context.r12, "r13", context.r13));
    let mut last = String::new();
    push_field(&mut last, "r14", context.r14);
    text::push_str(&mut last, " ");
    push_field(&mut last, "r15", context.r15);
    text::push_str(&mut last, " eflags=0x");
    text::push_hex(&mut last, context.eflags as u64, 8, false);
    proof {
        assert(last@ =~= flags_row(*context));
    }
    lines.push(last);
    proof {
        assert(lines@.map_values(|l: String| l@) =~= register_display(*context));
    }
    lines
}

/// The line that shows one register, or that says the name is unknown.
pub open spec fn named_display(context: ThreadContext, reg_name: Seq<char>) -> Seq<char> {
    match register_named(context, text::lower_seq(reg_name)) {
        Some(v) => register_field(text::lower_seq(reg_name), v),
        None => "Unrecognized register name: "@ + reg_name,
    }
}

/// Shows the register called `reg_name` under its lower-case name.
pub fn display_named(context: &ThreadContext, reg_name: &str) -> (line: String)
    ensures
        line@ == named_display(*context, reg_name@),
{
    let lower = text::to_lower(reg_name);
    let mut s = String::new();
    match lookup_register(context, &lower) {
        Some(v) => {
            text::push_chars(&mut s, &lower, 0, lower.len());
            text::push_str(&mut s, "=0x");
            text::push_hex(&mut s, v, 16, false);
            proof {
                assert(lower@.subrange(0, lower.len() as int) =~= lower@);
                assert(s@ =~= register_field(text::lower_seq(reg_name@), v));
            }
        },
        None => {
            text::push_str(&mut s, "Unrecognized register name: ");
            text::push_str(&mut s, reg_name);
            proof {
                assert(s@ =~= "Unrecognized register name: "@ + reg_name@);
            }
        },
    }
    s
}

} // verus!
