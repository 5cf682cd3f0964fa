//! Unwinding one x64 stack frame from the image's exception directory.

use vstd::prelude::*;
use crate::error::DebugError;
use crate::memory;
use crate::memory::{MemorySource, Pod};
use crate::module;
use crate::module::Module;
use crate::pe;
use crate::process;
use crate::process::Process;
use crate::registers::ThreadContext;

verus! {

/// One row of the exception directory: the code range of a function and
/// the place of its unwind information, all relative to the image base.
#[allow(non_snake_case, non_camel_case_types)]
#[derive(Clone, Copy, Debug, PartialEq, Eq, Structural)]
pub struct RUNTIME_FUNCTION {
    pub BeginAddress: u32,
    pub EndAddress: u32,
    pub UnwindInfo: u32,
}

/// The fixed head of a function's unwind information.
#[allow(non_snake_case, non_camel_case_types)]
#[derive(Clone, Copy, Debug, PartialEq, Eq, Structural)]
pub struct UNWIND_INFO {
    pub version_flags: u8,
    pub size_of_prolog: u8,
    pub count_of_codes: u8,
    pub frame_register_offset: u8,
}

/// One 16-bit slot of unwind code: the offset in the prolog, and the
/// operation (low four bits) with its operand (high four bits).
#[allow(non_snake_case, non_camel_case_types)]
#[derive(Clone, Copy, Debug, PartialEq, Eq, Structural)]
pub struct UNWIND_CODE {
    pub code_offset: u8,
    pub unwind_op_info: u8,
}

/// The operation codes of unwind codes.
pub const UWOP_PUSH_NONVOL: u8 = 0;

pub const UWOP_ALLOC_LARGE: u8 = 1;

pub const UWOP_ALLOC_SMALL: u8 = 2;

pub const UWOP_SET_FPREG: u8 = 3;

pub const UWOP_SAVE_NONVOL: u8 = 4;

pub const UWOP_SAVE_NONVOL_FAR: u8 = 5;

pub const UWOP_SAVE_XMM128: u8 = 8;

pub const UWOP_SAVE_XMM128_FAR: u8 = 9;

pub const UWOP_PUSH_MACHFRAME: u8 = 10;

/// The flag of UNWIND_INFO that marks a chained entry.
pub const UNW_FLAG_CHAININFO: u8 = 4;

impl Pod for RUNTIME_FUNCTION {
    open spec fn size() -> nat {
        12
    }

    open spec fn decode(bytes: Seq<u8>) -> RUNTIME_FUNCTION {
        RUNTIME_FUNCTION {
            BeginAddress: memory::le_u32(bytes.subrange(0, 4)),
            EndAddress: memory::le_u32(bytes.subrange(4, 8)),
            UnwindInfo: memory::le_u32(bytes.subrange(8, 12)),
        }
    }

    proof fn lemma_size() {
    }

    fn byte_size() -> (n: usize) {
        12
    }

    fn from_bytes(bytes: &Vec<u8>, offset: usize) -> (v: RUNTIME_FUNCTION) {
        proof {
            let b = bytes@.subrange(offset as int, offset + 12);
            assert(b.subrange(0, 4) =~= bytes@.subrange(offset as int, offset + 4));
            assert(b.subrange(4, 8) =~= bytes@.subrange(offset + 4, offset + 8));
            assert(b.subrange(8, 12) =~= bytes@.subrange(offset + 8, offset + 12));
        }
        RUNTIME_FUNCTION {
            BeginAddress: memory::u32_at(bytes, offset),
            EndAddress: memory::u32_at(bytes, offset + 4),
            UnwindInfo: memory::u32_at(bytes, offset + 8),
        }
    }
}

impl Pod for UNWIND_INFO {
    open spec fn size() -> nat {
        4
    }

    open spec fn decode(bytes: Seq<u8>) -> UNWIND_INFO {
        UNWIND_INFO {
            version_flags: bytes[0],
            size_of_prolog: bytes[1],
            count_of_codes: bytes[2],
            frame_register_offset: bytes[3],
        }
    }

    proof fn lemma_size() {
    }

    fn byte_size() -> (n: usize) {
        4
    }

    fn from_bytes(bytes: &Vec<u8>, offset: usize) -> (v: UNWIND_INFO) {
        UNWIND_INFO {
            version_flags: bytes[offset],
            size_of_prolog: bytes[offset + 1],
            count_of_codes: bytes[offset + 2],
            frame_register_offset: bytes[offset + 3],
        }
    }
}

impl UNWIND_CODE {
    /// The two bytes of a slot: the low one is the prolog offset.
    pub open spec fn of_slot(slot: u16) -> UNWIND_CODE {
        UNWIND_CODE { code_offset: (slot % 256) as u8, unwind_op_info: (slot / 256) as u8 }
    }

    /// The two bytes of a slot: the low one is the prolog offset.
    pub fn from_slot(slot: u16) -> (c: UNWIND_CODE)
        ensures
            c == UNWIND_CODE::of_slot(slot),
    {
        UNWIND_CODE { code_offset: (slot % 256) as u8, unwind_op_info: (slot / 256) as u8 }
    }

    /// The operation code.
    pub open spec fn spec_op(self) -> u8 {
        self.unwind_op_info % 16
    }

    /// The operand that rides with the operation code.
    pub open spec fn spec_info(self) -> u8 {
        self.unwind_op_info / 16
    }

    /// The operation code.
    #[verifier::when_used_as_spec(spec_op)]
    pub fn op(self) -> (r: u8)
        ensures
            r == self.spec_op(),
    {
        self.unwind_op_info % 16
    }

    /// The operand that rides with the operation code.
    #[verifier::when_used_as_spec(spec_info)]
    pub fn info(self) -> (r: u8)
        ensures
            r == self.spec_info(),
    {
        self.unwind_op_info / 16
    }
}

/// What a prolog step did, with large and small, near and far forms merged.
#[derive(Clone, Copy, Debug, PartialEq, Eq, Structural)]
pub enum UnwindOp {
    PushNonVolatile { reg: u8 },
    Alloc { size: u32 },
    SetFpreg,
    SaveNonVolatile { reg: u8, offset: u32 },
    SaveXmm128 { reg: u8, offset: u32 },
    PushMachFrame { error_code: bool },
}

/// A prolog step and the offset in the function at which it is complete.
#[derive(Clone, Copy, Debug, PartialEq, Eq, Structural)]
pub struct UnwindCode {
    pub code_offset: u8,
    pub op: UnwindOp,
}

impl UnwindOp {
    /// Register operands are register numbers.
    pub open spec fn wf(self) -> bool {
        match self {
            UnwindOp::PushNonVolatile { reg } => reg < 16,
            UnwindOp::SaveNonVolatile { reg, offset } => reg < 16,
            UnwindOp::SaveXmm128 { reg, offset } => reg < 16,
            _ => true,
        }
    }
}

/// How many slots the operation at the head of a code takes, or 0 where
/// the operation is not one the debugger knows.
pub open spec fn slots_of(code: UNWIND_CODE) -> nat {
    let op = code.spec_op();
    let info = code.spec_info();
    if op == UWOP_PUSH_NONVOL || op == UWOP_ALLOC_SMALL || op == UWOP_SET_FPREG || op
        == UWOP_PUSH_MACHFRAME {
        1
    } else if op == UWOP_ALLOC_LARGE && info == 0 {
        2
    } else if op == UWOP_ALLOC_LARGE && info == 1 {
        3
    } else if op == UWOP_SAVE_NONVOL || op == UWOP_SAVE_XMM128 {
        2
    } else if op == UWOP_SAVE_NONVOL_FAR || op == UWOP_SAVE_XMM128_FAR {
        3
    } else {
        0
    }
}

/// The error for an operation whose operand slots are cut off.
pub open spec fn incomplete_error(op: u8) -> DebugError {
    if op == UWOP_ALLOC_LARGE {
        DebugError::AllocLargeIncomplete
    } else if op == UWOP_SAVE_NONVOL {
        DebugError::SaveNonvolIncomplete
    } else if op == UWOP_SAVE_NONVOL_FAR {
        DebugError::SaveNonvolFarIncomplete
    } else if op == UWOP_SAVE_XMM128 {
        DebugError::SaveXmm128Incomplete
    } else {
        DebugError::SaveXmm128FarIncomplete
    }
}

/// The operand of a two-slot operation (`next`) or of a three-slot one
/// (`next` low, `after` high).
pub open spec fn wide_operand(next: u16, after: u16) -> u32 {
    (next as int + 65536 * (after as int)) as u32
}

/// The step that the slots from `i` on spell, given that all its slots are there.
pub open spec fn op_at(slots: Seq<u16>, i: int) -> UnwindOp {
    let code = UNWIND_CODE::of_slot(slots[i]);
    let op = code.spec_op();
    let info = code.spec_info();
    if op == UWOP_PUSH_NONVOL {
        UnwindOp::PushNonVolatile { reg: info }
    } else if op == UWOP_ALLOC_LARGE && info == 0 {
        UnwindOp::Alloc { size: (slots[i + 1] * 8) as u32 }
    } else if op == UWOP_ALLOC_LARGE {
        UnwindOp::Alloc { size: wide_operand(slots[i + 1], slots[i + 2]) }
    } else if op == UWOP_ALLOC_SMALL {
        UnwindOp::Alloc { size: (info * 8 + 8) as u32 }
    } else if op == UWOP_SET_FPREG {
        UnwindOp::SetFpreg
    } else if op == UWOP_SAVE_NONVOL {
        UnwindOp::SaveNonVolatile { reg: info, offset: slots[i + 1] as u32 }
    } else if op == UWOP_SAVE_NONVOL_FAR {
        UnwindOp::SaveNonVolatile { reg: info, offset: wide_operand(slots[i + 1], slots[i + 2]) }
    } else if op == UWOP_SAVE_XMM128 {
        UnwindOp::SaveXmm128 { reg: info, offset: slots[i + 1] as u32 }
    } else if op == UWOP_SAVE_XMM128_FAR {
        UnwindOp::SaveXmm128 { reg: info, offset: wide_operand(slots[i + 1], slots[i + 2]) }
    } else {
        UnwindOp::PushMachFrame { error_code: info != 0 }
    }
}

/// The steps that the slots from `i` on spell, in the order of the slots;
/// the first slot that cannot be read as a step gives the error.
pub open spec fn unwind_ops_from(slots: Seq<u16>, i: int) -> Result<Seq<UnwindCode>, DebugError>
    decreases slots.len() - i,
{
    if i < 0 || i >= slots.len() {
        Ok(Seq::empty())
    } else {
        let code = UNWIND_CODE::of_slot(slots[i]);
        let n = slots_of(code);
        if n == 0 {
            Err(DebugError::UnrecognizedUnwindOp)
        } else if i + n > slots.len() {
            Err(incomplete_error(code.spec_op()))
        } else {
            match unwind_ops_from(slots, i + n) {
                Err(e) => Err(e),
                Ok(rest) => Ok(
                    seq![UnwindCode { code_offset: code.code_offset, op: op_at(slots, i) }] + rest,
                ),
            }
        }
    }
}

/// Every step read from slots names registers by number.
pub proof fn lemma_unwind_ops_wf(slots: Seq<u16>, i: int)
    ensures
        unwind_ops_from(slots, i) matches Ok(ops) ==> forall|k: int|
            0 <= k < ops.len() ==> (#[trigger] ops[k]).op.wf(),
    decreases slots.len() - i,
{
    if i < 0 || i >= slots.len() {
    } else {
        let code = UNWIND_CODE::of_slot(slots[i]);
        let n = slots_of(code);
        if n != 0 && i + n <= slots.len() {
            lemma_unwind_ops_wf(slots, i + n);
        }
    }
}

/// Reads the slots of unwind code into prolog steps, in the order of the
/// slots (latest step first).
pub fn get_unwind_ops(code_slots: &[u16]) -> (r: Result<Vec<UnwindCode>, DebugError>)
    ensures
        match unwind_ops_from(code_slots@, 0) {
            Ok(ops) => r is Ok && r->Ok_0@ == ops,
            Err(e) => r == Err::<Vec<UnwindCode>, DebugError>(e),
        },
        r matches Ok(ops) ==> forall|k: int| 0 <= k < ops@.len() ==> (#[trigger] ops@[k]).op.wf(),
{
    let mut ops: Vec<UnwindCode> = Vec::new();
    let mut i: usize = 0;
    proof {
        lemma_unwind_ops_wf(code_slots@, 0);
    }
    while i < code_slots.len()
        invariant
            i <= code_slots.len(),
            unwind_ops_from(code_slots@, 0) == match unwind_ops_from(code_slots@, i as int) {
                Ok(rest) => Ok::<Seq<UnwindCode>, DebugError>(ops@ + rest),
                Err(e) => Err::<Seq<UnwindCode>, DebugError>(e),
            },
        decreases code_slots.len() - i,
    {
        let code = UNWIND_CODE::from_slot(code_slots[i]);
        let code_offset = code.code_offset;
        let unwind_op = code.op();
        let op_info = code.info();
        let ghost before = ops@;
        let left: usize = code_slots.len() - i;
        let used: usize;
        if unwind_op == UWOP_PUSH_NONVOL {
            ops.push(UnwindCode { code_offset, op: UnwindOp::PushNonVolatile { reg: op_info } });
            used = 1;
        } else if unwind_op == UWOP_ALLOC_LARGE && op_info == 0 {
            if left < 2 {
                return Err(DebugError::AllocLargeIncomplete);
            }
            let size = (code_slots[i + 1] as u32) * 8;
            ops.push(UnwindCode { code_offset, op: UnwindOp::Alloc { size } });
            used = 2;
        } else if unwind_op == UWOP_ALLOC_LARGE && op_info == 1 {
            if left < 3 {
                return Err(DebugError::AllocLargeIncomplete);
            }
            let size = code_slots[i + 1] as u32 + 65536 * (code_slots[i + 2] as u32);
            ops.push(UnwindCode { code_offset, op: UnwindOp::Alloc { size } });
            used = 3;
        } else if unwind_op == UWOP_ALLOC_SMALL {
            let size = (op_info as u32) * 8 + 8;
            ops.push(UnwindCode { code_offset, op: UnwindOp::Alloc { size } });
            used = 1;
        } else if unwind_op == UWOP_SET_FPREG {
            ops.push(UnwindCode { code_offset, op: UnwindOp::SetFpreg });
            used = 1;
        } else if unwind_op == UWOP_SAVE_NONVOL {
            if left < 2 {
                return Err(DebugError::SaveNonvolIncomplete);
            }
            let offset = code_slots[i + 1] as u32;
            ops.push(
                UnwindCode { code_offset, op: UnwindOp::SaveNonVolatile { reg: op_info, offset } },
            );
            used = 2;
        } else if unwind_op == UWOP_SAVE_NONVOL_FAR {
            if left < 3 {
                return Err(DebugError::SaveNonvolFarIncomplete);
            }
            let offset = code_slots[i + 1] as u32 + 65536 * (code_slots[i + 2] as u32);
            ops.push(
                UnwindCode { code_offset, op: UnwindOp::SaveNonVolatile { reg: op_info, offset } },
            );
            used = 3;
        } else if unwind_op == UWOP_SAVE_XMM128 {
            if left < 2 {
                return Err(DebugError::SaveXmm128Incomplete);
            }
            let offset = code_slots[i + 1] as u32;
            ops.push(UnwindCode { code_offset, op: UnwindOp::SaveXmm128 { reg: op_info, offset } });
            used = 2;
        } else if unwind_op == UWOP_SAVE_XMM128_FAR {
            if left < 3 {
                return Err(DebugError::SaveXmm128FarIncomplete);
            }
            let offset = code_slots[i + 1] as u32 + 65536 * (code_slots[i + 2] as u32);
            ops.push(UnwindCode { code_offset, op: UnwindOp::SaveXmm128 { reg: op_info, offset } });
            used = 3;
        } else if unwind_op == UWOP_PUSH_MACHFRAME {
            ops.push(
                UnwindCode { code_offset, op: UnwindOp::PushMachFrame { error_code: op_info != 0 } },
            );
            used = 1;
        } else {
            return Err(DebugError::UnrecognizedUnwindOp);
        }
        proof {
            let next = unwind_ops_from(code_slots@, i + used);
            assert(used == slots_of(code));
            assert(ops@ == before.push(
                UnwindCode { code_offset: code.code_offset, op: op_at(code_slots@, i as int) },
            ));
            if let Ok(rest) = next {
                let head = seq![
                    UnwindCode { code_offset: code.code_offset, op: op_at(code_slots@, i as int) },
                ];
                assert(before + (head + rest) =~= ops@ + rest);
            }
        }
        i = i + used;
    }
    proof {
        assert(ops@ + Seq::<UnwindCode>::empty() =~= ops@);
    }
    Ok(ops)
}

/// Whether the table is in ascending order of function start.
pub open spec fn sorted_by_begin(list: Seq<RUNTIME_FUNCTION>) -> bool {
    forall|i: int, j: int|
        0 <= i <= j < list.len() ==> (#[trigger] list[i]).BeginAddress <= (
        #[trigger] list[j]).BeginAddress
}

/// The index of the last row that starts at or before `addr`, or -1.
pub open spec fn last_begin_le(list: Seq<RUNTIME_FUNCTION>, addr: u32) -> int
    decreases list.len(),
{
    if list.len() == 0 {
        -1
    } else if list.last().BeginAddress <= addr {
        list.len() - 1
    } else {
        last_begin_le(list.drop_last(), addr)
    }
}

/// Where a binary search for `addr` among the function starts of
/// `list[lo..hi]` ends: in a sorted table, behind the last row that starts
/// at or before `addr`.
pub open spec fn search_end(list: Seq<RUNTIME_FUNCTION>, addr: u32, lo: int, hi: int) -> int
    decreases hi - lo,
{
    if lo < 0 || hi > list.len() || lo >= hi {
        lo
    } else {
        let mid = lo + (hi - lo) / 2;
        if list[mid].BeginAddress <= addr {
            search_end(list, addr, mid + 1, hi)
        } else {
            search_end(list, addr, lo, mid)
        }
    }
}

/// The row that the search gives for `addr`: the row before the place
/// where the binary search ends, if its code range holds `addr`.
pub open spec fn runtime_function_of(list: Seq<RUNTIME_FUNCTION>, addr: u32) -> Option<
    RUNTIME_FUNCTION,
> {
    let k = search_end(list, addr, 0, list.len() as int) - 1;
    if 0 <= k < list.len() && list[k].BeginAddress <= addr && addr < list[k].EndAddress {
        Some(list[k])
    } else {
        None
    }
}

/// The row at `k` is the last that starts at or before `addr` if none after it does.
proof fn lemma_last_begin_le(list: Seq<RUNTIME_FUNCTION>, addr: u32, k: int)
    requires
        -1 <= k < list.len(),
        k >= 0 ==> list[k].BeginAddress <= addr,
        forall|j: int| k < j < list.len() ==> (#[trigger] list[j]).BeginAddress > addr,
    ensures
        last_begin_le(list, addr) == k,
    decreases list.len(),
{
    if list.len() == 0 {
    } else if k == list.len() - 1 {
    } else {
        assert(list[list.len() - 1].BeginAddress > addr);
        assert forall|j: int| k < j < list.drop_last().len() implies (
        #[trigger] list.drop_last()[j]).BeginAddress > addr by {
            assert(list.drop_last()[j] == list[j]);
        }
        lemma_last_begin_le(list.drop_last(), addr, k);
    }
}

/// In a sorted table the binary search ends behind the last row that starts at or before `addr`.
proof fn lemma_search_end(list: Seq<RUNTIME_FUNCTION>, addr: u32, lo: int, hi: int)
    requires
        0 <= lo <= hi <= list.len(),
        sorted_by_begin(list),
        forall|j: int| 0 <= j < lo ==> (#[trigger] list[j]).BeginAddress <= addr,
        forall|j: int| hi <= j < list.len() ==> (#[trigger] list[j]).BeginAddress > addr,
    ensures
        search_end(list, addr, lo, hi) - 1 == last_begin_le(list, addr),
        lo <= search_end(list, addr, lo, hi) <= hi,
    decreases hi - lo,
{
    if lo >= hi {
        lemma_last_begin_le(list, addr, lo - 1);
    } else {
        let mid = lo + (hi - lo) / 2;
        if list[mid].BeginAddress <= addr {
            assert forall|j: int| 0 <= j < mid + 1 implies (#[trigger] list[j]).BeginAddress
                <= addr by {
                assert(list[j].BeginAddress <= list[mid].BeginAddress);
            }
            lemma_search_end(list, addr, mid + 1, hi);
        } else {
            assert forall|j: int| mid <= j < list.len() implies (#[trigger] list[j]).BeginAddress
                > addr by {
                assert(list[mid].BeginAddress <= list[j].BeginAddress);
            }
            lemma_search_end(list, addr, lo, mid);
        }
    }
}

/// In a table sorted by function start, the search gives the last row
/// that starts at or before `addr`, if `addr` lies before its end.
pub proof fn lemma_runtime_function_sorted(list: Seq<RUNTIME_FUNCTION>, addr: u32)
    requires
        sorted_by_begin(list),
    ensures
        runtime_function_of(list, addr) == if last_begin_le(list, addr) >= 0 && addr
            < list[last_begin_le(list, addr)].EndAddress {
            Some(list[last_begin_le(list, addr)])
        } else {
            None
        },
{
    lemma_search_end(list, addr, 0, list.len() as int);
    let k = last_begin_le(list, addr);
    if k >= 0 {
        lemma_last_begin_at(list, addr);
    }
}

/// The last row that starts at or before `addr` does start at or before `addr`.
proof fn lemma_last_begin_at(list: Seq<RUNTIME_FUNCTION>, addr: u32)
    ensures
        -1 <= last_begin_le(list, addr) < list.len(),
        last_begin_le(list, addr) >= 0 ==> list[last_begin_le(list, addr)].BeginAddress <= addr,
    decreases list.len(),
{
    if list.len() == 0 {
    } else if list.last().BeginAddress <= addr {
    } else {
        lemma_last_begin_at(list.drop_last(), addr);
    }
}

/// Finds the function whose code range holds the image-relative address
/// `addr`, by binary search on the function starts: the candidate is the
/// row before the place where the search ends, and it is the answer if
/// its range holds `addr`. In a table sorted by function start that is
/// the last row starting at or before `addr`.
pub fn find_runtime_function(addr: u32, function_list: &[RUNTIME_FUNCTION]) -> (r: Option<
    &RUNTIME_FUNCTION,
>)
    ensures
        match runtime_function_of(function_list@, addr) {
            Some(f) => r is Some && *r->Some_0 == f,
            None => r is None,
        },
        r matches Some(f) ==> f.BeginAddress <= addr < f.EndAddress,
{
    let mut lo: usize = 0;
    let mut hi: usize = function_list.len();
    while lo < hi
        invariant
            lo <= hi <= function_list.len(),
            search_end(function_list@, addr, 0, function_list@.len() as int) == search_end(
                function_list@,
                addr,
                lo as int,
                hi as int,
            ),
        decreases hi - lo,
    {
        let mid: usize = lo + (hi - lo) / 2;
        if function_list[mid].BeginAddress <= addr {
            lo = mid + 1;
        } else {
            hi = mid;
        }
    }
    if lo == 0 {
        return None;
    }
    let func = &function_list[lo - 1];
    if func.BeginAddress <= addr && addr < func.EndAddress {
        Some(func)
    } else {
        None
    }
}

/// The context after one prolog step is undone.
pub open spec fn undo_op(context: ThreadContext, op: UnwindOp, mem: Map<u64, u8>) -> Result<
    ThreadContext,
    DebugError,
> {
    match op {
        UnwindOp::Alloc { size } => if context.rsp + size > u64::MAX {
            Err(DebugError::AddressOutOfRange)
        } else {
            Ok(ThreadContext { rsp: (context.rsp + size) as u64, ..context })
        },
        UnwindOp::PushNonVolatile { reg } => match memory::data_at::<u64>(mem, context.rsp as int) {
            Err(e) => Err(e),
            Ok(val) => if context.rsp + 8 > u64::MAX {
                Err(DebugError::AddressOutOfRange)
            } else {
                Ok(ThreadContext { rsp: (context.rsp + 8) as u64, ..context }.with_gpr(reg, val))
            },
        },
        UnwindOp::SaveNonVolatile { reg, offset } => if context.rsp + offset > u64::MAX {
            Err(DebugError::AddressOutOfRange)
        } else {
            match memory::data_at::<u64>(mem, context.rsp + offset) {
                Err(e) => Err(e),
                Ok(val) => Ok(context.with_gpr(reg, val)),
            }
        },
        _ => Ok(context),
    }
}

/// The context after the steps from `i` on are undone, in the order of
/// the list. A step counts only if the prolog had run it: its offset is
/// at most the distance of `rip` from the function start.
pub open spec fn undo_ops_from(
    context: ThreadContext,
    ops: Seq<UnwindCode>,
    func_address: u64,
    mem: Map<u64, u8>,
    i: int,
) -> Result<ThreadContext, DebugError>
    decreases ops.len() - i,
{
    if i < 0 || i >= ops.len() {
        Ok(context)
    } else if ops[i].code_offset <= context.rip - func_address {
        match undo_op(context, ops[i].op, mem) {
            Err(e) => Err(e),
            Ok(next) => undo_ops_from(next, ops, func_address, mem, i + 1),
        }
    } else {
        undo_ops_from(context, ops, func_address, mem, i + 1)
    }
}

/// Undoing a step leaves `rip` alone.
pub proof fn lemma_undo_keeps_rip(context: ThreadContext, op: UnwindOp, mem: Map<u64, u8>)
    requires
        op.wf(),
    ensures
        undo_op(context, op, mem) matches Ok(next) ==> next.rip == context.rip,
{
}

/// Undoes the prolog steps that had run when the thread reached `rip`:
/// gives back stack allocations and reloads the saved registers from the
/// target's stack.
pub fn apply_unwind_ops<M: MemorySource + ?Sized>(
    context: &ThreadContext,
    unwind_ops: &[UnwindCode],
    func_address: u64,
    memory_source: &M,
) -> (r: Result<ThreadContext, DebugError>)
    requires
        func_address <= context.rip,
        forall|k: int| 0 <= k < unwind_ops@.len() ==> (#[trigger] unwind_ops@[k]).op.wf(),
    ensures
        r == undo_ops_from(*context, unwind_ops@, func_address, memory_source.view(), 0),
        r matches Ok(c) ==> c.rip == context.rip,
{
    let mut unwound_context: ThreadContext = *context;
    let ghost mem = memory_source.view();
    let mut i: usize = 0;
    while i < unwind_ops.len()
        invariant
            i <= unwind_ops.len(),
            mem == memory_source.view(),
            func_address <= context.rip,
            unwound_context.rip == context.rip,
            forall|k: int| 0 <= k < unwind_ops@.len() ==> (#[trigger] unwind_ops@[k]).op.wf(),
            undo_ops_from(*context, unwind_ops@, func_address, mem, 0) == undo_ops_from(
                unwound_context,
                unwind_ops@,
                func_address,
                mem,
                i as int,
            ),
        decreases unwind_ops.len() - i,
    {
        let unwind = unwind_ops[i];
        let func_offset: u64 = unwound_context.rip - func_address;
        proof {
            lemma_undo_keeps_rip(unwound_context, unwind.op, mem);
        }
        if unwind.code_offset as u64 <= func_offset {
            match unwind.op {
                UnwindOp::Alloc { size } => {
                    match unwound_context.rsp.checked_add(size as u64) {
                        Some(rsp) => { unwound_context.rsp = rsp; },
                        None => { return Err(DebugError::AddressOutOfRange); },
                    }
                },
                UnwindOp::PushNonVolatile { reg } => {
                    let addr = unwound_context.rsp;
                    let val = match memory::read_memory_data::<u64, M>(memory_source, addr) {
                        Ok(val) => val,
                        Err(e) => { return Err(e); },
                    };
                    match unwound_context.rsp.checked_add(8) {
                        Some(rsp) => { unwound_context.rsp = rsp; },
                        None => { return Err(DebugError::AddressOutOfRange); },
                    }
                    unwound_context.set_op_register(reg, val);
                },
                UnwindOp::SaveNonVolatile { reg, offset } => {
                    let addr = match unwound_context.rsp.checked_add(offset as u64) {
                        Some(addr) => addr,
                        None => { return Err(DebugError::AddressOutOfRange); },
                    };
                    let val = match memory::read_memory_data::<u64, M>(memory_source, addr) {
                        Ok(val) => val,
                        Err(e) => { return Err(e); },
                    };
                    unwound_context.set_op_register(reg, val);
                },
                _ => {},
            }
        }
        i = i + 1;
    }
    Ok(unwound_context)
}

/// The context of the caller once the frame's prolog is undone: the
/// return address at the top of the stack becomes `rip` and is popped.
/// A return address of zero ends the stack.
pub open spec fn return_from(context: ThreadContext, mem: Map<u64, u8>) -> Result<
    Option<ThreadContext>,
    DebugError,
> {
    match memory::data_at::<u64>(mem, context.rsp as int) {
        Err(e) => Err(e),
        Ok(rip) => if context.rsp + 8 > u64::MAX {
            Err(DebugError::AddressOutOfRange)
        } else if rip == 0 {
            Ok(None)
        } else {
            Ok(Some(ThreadContext { rip, rsp: (context.rsp + 8) as u64, ..context }))
        },
    }
}

/// Whether the flags of an UNWIND_INFO, the high five bits of its first
/// byte, say that it chains to another entry.
pub open spec fn is_chained(info: UNWIND_INFO) -> bool {
    ((info.version_flags / 8) / UNW_FLAG_CHAININFO) % 2 == 1
}

/// The caller's context for a frame of the function `func` of the image at `base`.
pub open spec fn unwind_function(
    base: u64,
    func: RUNTIME_FUNCTION,
    context: ThreadContext,
    mem: Map<u64, u8>,
) -> Result<Option<ThreadContext>, DebugError> {
    match memory::data_at::<UNWIND_INFO>(mem, base + func.UnwindInfo) {
        Err(e) => Err(e),
        Ok(info) => if is_chained(info) {
            Err(DebugError::ChainedUnwindInfo)
        } else if info.frame_register_offset != 0 {
            Err(DebugError::FrameRegisterUnsupported)
        } else {
            match memory::full_array_at::<u16>(
                mem,
                base + func.UnwindInfo + 4,
                info.count_of_codes as nat,
            ) {
                Err(e) => Err(e),
                Ok(codes) => match unwind_ops_from(codes, 0) {
                    Err(e) => Err(e),
                    Ok(ops) => match undo_ops_from(
                        context,
                        ops,
                        (base + func.BeginAddress) as u64,
                        mem,
                        0,
                    ) {
                        Err(e) => Err(e),
                        Ok(unwound) => return_from(unwound, mem),
                    },
                },
            }
        },
    }
}

/// The caller's context for a frame in the module `m`.
pub open spec fn unwind_in_module(m: Module, context: ThreadContext, mem: Map<u64, u8>) -> Result<
    Option<ThreadContext>,
    DebugError,
> {
    let dir = m.pe_header.data_directories[pe::IMAGE_DIRECTORY_ENTRY_EXCEPTION as int];
    if dir.virtual_address == 0 || dir.size == 0 {
        return_from(context, mem)
    } else {
        match memory::full_array_at::<RUNTIME_FUNCTION>(
            mem,
            m.address + dir.virtual_address,
            (dir.size / 12) as nat,
        ) {
            Err(e) => Err(e),
            Ok(functions) => match runtime_function_of(
                functions,
                (context.rip - m.address) as u32,
            ) {
                None => return_from(context, mem),
                Some(func) => unwind_function(m.address, func, context, mem),
            },
        }
    }
}

/// The context of the caller of the frame that `context` stands in, or
/// nothing at the end of the stack: outside every module, and where the
/// return address is zero. A frame of a module without exception
/// directory, or of no function of the directory, is a leaf frame: its
/// return address lies at the top of the stack.
pub open spec fn caller_context(modules: Seq<Module>, context: ThreadContext, mem: Map<u64, u8>)
    -> Result<Option<ThreadContext>, DebugError> {
    match process::containing_module(modules, context.rip) {
        None => Ok(None),
        Some(m) => unwind_in_module(m, context, mem),
    }
}

/// Pops the return address into `rip`.
fn pop_return_address<M: MemorySource + ?Sized>(context: ThreadContext, memory_source: &M) -> (r:
    Result<Option<ThreadContext>, DebugError>)
    ensures
        r == return_from(context, memory_source.view()),
{
    let mut ctx = context;
    let rip = match memory::read_memory_data::<u64, M>(memory_source, ctx.rsp) {
        Ok(v) => v,
        Err(e) => { return Err(e); },
    };
    let rsp = match ctx.rsp.checked_add(8) {
        Some(v) => v,
        None => { return Err(DebugError::AddressOutOfRange); },
    };
    if rip == 0 {
        return Ok(None);
    }
    ctx.rip = rip;
    ctx.rsp = rsp;
    Ok(Some(ctx))
}

/// Unwinds a frame of the function `func`.
fn unwind_with_function<M: MemorySource + ?Sized>(
    base: u64,
    func: &RUNTIME_FUNCTION,
    context: ThreadContext,
    memory_source: &M,
) -> (r: Result<Option<ThreadContext>, DebugError>)
    requires
        base <= module::MAX_MODULE_ADDRESS,
        base + func.BeginAddress <= context.rip,
    ensures
        r == unwind_function(base, *func, context, memory_source.view()),
{
    let info_addr = base + func.UnwindInfo as u64;
    let info = match memory::read_memory_data::<UNWIND_INFO, M>(memory_source, info_addr) {
        Ok(v) => v,
        Err(e) => { return Err(e); },
    };
    // The flags are the high five bits of the first byte.
    if ((info.version_flags / 8) / UNW_FLAG_CHAININFO) % 2 == 1 {
        return Err(DebugError::ChainedUnwindInfo);
    }
    if info.frame_register_offset != 0 {
        return Err(DebugError::FrameRegisterUnsupported);
    }
    // The codes are read as 16-bit slots and taken apart by operation.
    let codes = match memory::read_memory_full_array::<u16, M>(
        memory_source,
        info_addr + 4,
        info.count_of_codes as usize,
    ) {
        Ok(v) => v,
        Err(e) => { return Err(e); },
    };
    let unwind_ops = match get_unwind_ops(codes.as_slice()) {
        Ok(v) => v,
        Err(e) => { return Err(e); },
    };
    let unwound = match apply_unwind_ops(
        &context,
        unwind_ops.as_slice(),
        base + func.BeginAddress as u64,
        memory_source,
    ) {
        Ok(v) => v,
        Err(e) => { return Err(e); },
    };
    pop_return_address(unwound, memory_source)
}

/// Unwinds one frame: gives the context of the caller, or nothing at the
/// end of the stack.
pub fn unwind_context<M: MemorySource + ?Sized>(
    process: &Process,
    context: ThreadContext,
    memory_source: &M,
) -> (r: Result<Option<ThreadContext>, DebugError>)
    requires
        process.wf(),
    ensures
        r == caller_context(process.modules(), context, memory_source.view()),
{
    let m = match process.get_containing_module(context.rip) {
        Some(m) => m,
        None => { return Ok(None); },
    };
    let data_directory = m.get_data_directory(pe::IMAGE_DIRECTORY_ENTRY_EXCEPTION);
    if data_directory.virtual_address == 0 || data_directory.size == 0 {
        return pop_return_address(context, memory_source);
    }
    let count = data_directory.size as usize / 12;
    let table_address = m.address + data_directory.virtual_address as u64;
    let functions = match memory::read_memory_full_array::<RUNTIME_FUNCTION, M>(
        memory_source,
        table_address,
        count,
    ) {
        Ok(v) => v,
        Err(e) => { return Err(e); },
    };
    let rva = (context.rip - m.address) as u32;
    match find_runtime_function(rva, functions.as_slice()) {
        Some(func) => unwind_with_function(m.address, func, context, memory_source),
        None => pop_return_address(context, memory_source),
    }
}

} // verus!
