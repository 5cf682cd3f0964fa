//! A model of what a function prolog does to the stack, and the proof
//! that unwinding undoes it.

use vstd::prelude::*;
use crate::memory;
use crate::registers::ThreadContext;
use crate::stack;
use crate::stack::{UnwindCode, UnwindOp};

verus! {

/// The eight bytes of `v`, lowest first.
pub open spec fn bytes_of_u64(v: u64) -> Seq<u8> {
    seq![
        (v % 256) as u8,
        ((v / 0x100) % 256) as u8,
        ((v / 0x1_0000) % 256) as u8,
        ((v / 0x100_0000) % 256) as u8,
        ((v / 0x1_0000_0000) % 256) as u8,
        ((v / 0x100_0000_0000) % 256) as u8,
        ((v / 0x1_0000_0000_0000) % 256) as u8,
        ((v / 0x100_0000_0000_0000) % 256) as u8,
    ]
}

/// Memory after `v` is stored at `addr`.
pub open spec fn store_u64(mem: Map<u64, u8>, addr: int, v: u64) -> Map<u64, u8> {
    Map::new(
        |a: u64| mem.contains_key(a) || addr <= a < addr + 8,
        |a: u64|
            if addr <= a < addr + 8 {
                bytes_of_u64(v)[a - addr]
            } else {
                mem[a]
            },
    )
}

/// Stack pointer and memory in the course of a prolog.
pub struct PrologState {
    pub rsp: int,
    pub mem: Map<u64, u8>,
}

/// Whether a step had run when the thread was `func_offset` bytes into the function.
pub open spec fn had_run(code: UnwindCode, func_offset: int) -> bool {
    code.code_offset <= func_offset
}

/// Whether a step stores a register on the stack.
pub open spec fn stores_register(op: UnwindOp) -> bool {
    op is PushNonVolatile || op is SaveNonVolatile
}

/// The register that a step stores.
pub open spec fn stored_register(op: UnwindOp) -> u8 {
    match op {
        UnwindOp::PushNonVolatile { reg } => reg,
        UnwindOp::SaveNonVolatile { reg, offset } => reg,
        _ => 0,
    }
}

/// What one prolog step does: a push moves the stack pointer down by
/// eight and stores the register there, an allocation moves the stack
/// pointer down, a save stores the register above the stack pointer.
/// Registers other than `rsp` keep the values they had at function entry.
pub open spec fn prolog_step(s: PrologState, op: UnwindOp, entry: ThreadContext) -> PrologState {
    match op {
        UnwindOp::PushNonVolatile { reg } => PrologState {
            rsp: s.rsp - 8,
            mem: store_u64(s.mem, s.rsp - 8, entry.gpr(reg)),
        },
        UnwindOp::Alloc { size } => PrologState { rsp: s.rsp - size, mem: s.mem },
        UnwindOp::SaveNonVolatile { reg, offset } => PrologState {
            rsp: s.rsp,
            mem: store_u64(s.mem, s.rsp + offset, entry.gpr(reg)),
        },
        _ => s,
    }
}

/// The state once the steps `ops[i..]` that had run are executed,
/// forwards in time: the list holds the latest step first, so the last
/// entry of the list runs first.
pub open spec fn prolog_state(
    entry: ThreadContext,
    mem: Map<u64, u8>,
    ops: Seq<UnwindCode>,
    func_offset: int,
    i: int,
) -> PrologState
    decreases ops.len() - i,
{
    if i < 0 || i >= ops.len() {
        PrologState { rsp: entry.rsp as int, mem }
    } else {
        let earlier = prolog_state(entry, mem, ops, func_offset, i + 1);
        if had_run(ops[i], func_offset) {
            prolog_step(earlier, ops[i].op, entry)
        } else {
            earlier
        }
    }
}

/// The address at which step `i` stores its register.
pub open spec fn slot_of(
    entry: ThreadContext,
    mem: Map<u64, u8>,
    ops: Seq<UnwindCode>,
    func_offset: int,
    i: int,
) -> int {
    match ops[i].op {
        UnwindOp::SaveNonVolatile { reg, offset } => prolog_state(
            entry,
            mem,
            ops,
            func_offset,
            i,
        ).rsp + offset,
        _ => prolog_state(entry, mem, ops, func_offset, i).rsp,
    }
}

/// Whether step `i` had run and stores a register.
pub open spec fn is_store(ops: Seq<UnwindCode>, func_offset: int, i: int) -> bool {
    0 <= i < ops.len() && had_run(ops[i], func_offset) && stores_register(ops[i].op)
}

/// A prolog as a compiler emits it: only pushes, allocations and saves,
/// of registers other than `rsp`; the stack stays inside the address
/// space; and no store overwrites another.
pub open spec fn prolog_well_formed(
    entry: ThreadContext,
    mem: Map<u64, u8>,
    ops: Seq<UnwindCode>,
    func_offset: int,
) -> bool {
    &&& forall|i: int|
        0 <= i < ops.len() ==> {
            let op = (#[trigger] ops[i]).op;
            (op is PushNonVolatile || op is Alloc || op is SaveNonVolatile) && op.wf() && (
            stores_register(op) ==> stored_register(op) != 4)
        }
    &&& prolog_state(entry, mem, ops, func_offset, 0).rsp >= 0
    &&& forall|i: int| #[trigger]
        is_store(ops, func_offset, i) ==> 0 <= slot_of(entry, mem, ops, func_offset, i)
            && slot_of(entry, mem, ops, func_offset, i) + 8 <= 0x1_0000_0000_0000_0000
    &&& forall|i: int, j: int|
        #![trigger is_store(ops, func_offset, i), is_store(ops, func_offset, j)]
        is_store(ops, func_offset, i) && is_store(ops, func_offset, j) && i < j ==> slot_of(
            entry,
            mem,
            ops,
            func_offset,
            i,
        ) + 8 <= slot_of(entry, mem, ops, func_offset, j) || slot_of(
            entry,
            mem,
            ops,
            func_offset,
            j,
        ) + 8 <= slot_of(entry, mem, ops, func_offset, i)
}

/// The bytes of a value stand for the value.
proof fn lemma_bytes_round_trip(v: u64)
    ensures
        memory::le_u64(bytes_of_u64(v)) == v,
{
    let b = bytes_of_u64(v);
    let lo = b.subrange(0, 4);
    let hi = b.subrange(4, 8);
    assert(lo[0] == b[0] && lo[1] == b[1] && lo[2] == b[2] && lo[3] == b[3]);
    assert(hi[0] == b[4] && hi[1] == b[5] && hi[2] == b[6] && hi[3] == b[7]);
    assert((v % 256) + 256 * ((v / 0x100) % 256) + 65536 * ((v / 0x1_0000) % 256) + 16777216 * ((v
        / 0x100_0000) % 256) == v % 0x1_0000_0000) by (bit_vector);
    assert(((v / 0x1_0000_0000) % 256) + 256 * ((v / 0x100_0000_0000) % 256) + 65536 * ((v
        / 0x1_0000_0000_0000) % 256) + 16777216 * ((v / 0x100_0000_0000_0000) % 256) == v
        / 0x1_0000_0000) by (bit_vector);
    assert(memory::le_u32(lo) as int == v % 0x1_0000_0000);
    assert(memory::le_u32(hi) as int == v / 0x1_0000_0000);
}

/// A stored value is read back.
pub proof fn lemma_store_read(mem: Map<u64, u8>, addr: int, v: u64)
    requires
        0 <= addr,
        addr + 8 <= 0x1_0000_0000_0000_0000,
    ensures
        memory::data_at::<u64>(store_u64(mem, addr, v), addr) == Ok::<u64, crate::error::DebugError>(
            v,
        ),
{
    let after = store_u64(mem, addr, v);
    assert forall|a: int| addr <= a < addr + 8 implies #[trigger] memory::readable(after, a) by {
        assert(after.contains_key(a as u64));
    }
    assert(memory::bytes_at(after, addr, 8) =~= bytes_of_u64(v));
    lemma_bytes_round_trip(v);
}

/// A store leaves what lies elsewhere as it was.
pub proof fn lemma_store_frame(mem: Map<u64, u8>, addr: int, v: u64, other: int)
    requires
        other + 8 <= addr || addr + 8 <= other,
    ensures
        memory::data_at::<u64>(store_u64(mem, addr, v), other) == memory::data_at::<u64>(mem, other),
{
    let after = store_u64(mem, addr, v);
    assert forall|a: int| other <= a < other + 8 implies (#[trigger] memory::readable(after, a)
        == memory::readable(mem, a)) by {
        if 0 <= a <= u64::MAX {
            assert(after.contains_key(a as u64) == mem.contains_key(a as u64));
        }
    }
    if memory::range_readable(mem, other, 8) {
        assert(memory::range_readable(after, other, 8));
        assert(memory::bytes_at(after, other, 8) =~= memory::bytes_at(mem, other, 8)) by {
            assert forall|i: int| 0 <= i < 8 implies memory::bytes_at(after, other, 8)[i]
                == memory::bytes_at(mem, other, 8)[i] by {
                assert(memory::readable(mem, other + i));
            }
        }
    } else {
        let a = choose|a: int| other <= a < other + 8 && !memory::readable(mem, a);
        assert(!memory::readable(after, a));
    }
}

/// The stack pointer only goes down in a prolog.
proof fn lemma_rsp_descends(
    entry: ThreadContext,
    mem: Map<u64, u8>,
    ops: Seq<UnwindCode>,
    func_offset: int,
    i: int,
)
    requires
        0 <= i <= ops.len(),
    ensures
        prolog_state(entry, mem, ops, func_offset, i).rsp <= entry.rsp,
        i < ops.len() ==> prolog_state(entry, mem, ops, func_offset, i).rsp <= prolog_state(
            entry,
            mem,
            ops,
            func_offset,
            i + 1,
        ).rsp,
    decreases ops.len() - i,
{
    if i < ops.len() {
        lemma_rsp_descends(entry, mem, ops, func_offset, i + 1);
    }
}

/// What a step stored is still there when the later steps have run.
proof fn lemma_slot_intact(
    entry: ThreadContext,
    mem: Map<u64, u8>,
    ops: Seq<UnwindCode>,
    func_offset: int,
    i: int,
    k: int,
)
    requires
        prolog_well_formed(entry, mem, ops, func_offset),
        is_store(ops, func_offset, i),
        0 <= k <= i,
    ensures
        memory::data_at::<u64>(
            prolog_state(entry, mem, ops, func_offset, k).mem,
            slot_of(entry, mem, ops, func_offset, i),
        ) == Ok::<u64, crate::error::DebugError>(entry.gpr(stored_register(ops[i].op))),
    decreases i - k,
{
    let slot = slot_of(entry, mem, ops, func_offset, i);
    if k == i {
        let earlier = prolog_state(entry, mem, ops, func_offset, i + 1);
        lemma_store_read(earlier.mem, slot, entry.gpr(stored_register(ops[i].op)));
    } else {
        lemma_slot_intact(entry, mem, ops, func_offset, i, k + 1);
        let earlier = prolog_state(entry, mem, ops, func_offset, k + 1);
        if is_store(ops, func_offset, k) {
            let other = slot_of(entry, mem, ops, func_offset, k);
            assert(is_store(ops, func_offset, i));
            lemma_store_frame(earlier.mem, other, entry.gpr(stored_register(ops[k].op)), slot);
        }
    }
}

/// Whether a step from `i` on that had run stores register `reg`.
pub open spec fn stored_from(ops: Seq<UnwindCode>, func_offset: int, reg: u8, i: int) -> bool {
    exists|j: int|
        i <= j && #[trigger] is_store(ops, func_offset, j) && stored_register(ops[j].op) == reg
}

/// Undoing the steps from `i` on leads from the state after them to the state at entry.
proof fn lemma_undo(
    entry: ThreadContext,
    mem: Map<u64, u8>,
    ops: Seq<UnwindCode>,
    func_address: u64,
    context: ThreadContext,
    i: int,
)
    requires
        func_address <= context.rip,
        prolog_well_formed(entry, mem, ops, context.rip - func_address),
        0 <= i <= ops.len(),
        context.rsp == prolog_state(entry, mem, ops, context.rip - func_address, i).rsp,
    ensures
        stack::undo_ops_from(
            context,
            ops,
            func_address,
            prolog_state(entry, mem, ops, context.rip - func_address, 0).mem,
            i,
        ) is Ok,
        ({
            let c = stack::undo_ops_from(
                context,
                ops,
                func_address,
                prolog_state(entry, mem, ops, context.rip - func_address, 0).mem,
                i,
            )->Ok_0;
            &&& c.rsp == entry.rsp
            &&& c.rip == context.rip
            &&& forall|reg: u8|
                reg < 16 && reg != 4 ==> #[trigger] c.gpr(reg) == if stored_from(
                    ops,
                    context.rip - func_address,
                    reg,
                    i,
                ) {
                    entry.gpr(reg)
                } else {
                    context.gpr(reg)
                }
        }),
    decreases ops.len() - i,
{
    let fo = context.rip - func_address;
    let final_mem = prolog_state(entry, mem, ops, fo, 0).mem;
    if i >= ops.len() {
        assert forall|reg: u8| reg < 16 && reg != 4 implies !stored_from(ops, fo, reg, i) by {}
    } else {
        lemma_rsp_descends(entry, mem, ops, fo, i);
        lemma_rsp_descends(entry, mem, ops, fo, i + 1);
        let op = ops[i].op;
        if had_run(ops[i], fo) {
            if stores_register(op) {
                assert(is_store(ops, fo, i));
                lemma_slot_intact(entry, mem, ops, fo, i, 0);
            }
            let next = stack::undo_op(context, op, final_mem)->Ok_0;
            assert(stack::undo_op(context, op, final_mem) is Ok);
            assert(next.rsp == prolog_state(entry, mem, ops, fo, i + 1).rsp);
            assert(next.rip == context.rip);
            lemma_undo(entry, mem, ops, func_address, next, i + 1);
            let c = stack::undo_ops_from(next, ops, func_address, final_mem, i + 1)->Ok_0;
            assert forall|reg: u8| reg < 16 && reg != 4 implies #[trigger] c.gpr(reg)
                == if stored_from(ops, fo, reg, i) {
                entry.gpr(reg)
            } else {
                context.gpr(reg)
            } by {
                if stored_from(ops, fo, reg, i + 1) {
                    let j = choose|j: int|
                        i + 1 <= j && #[trigger] is_store(ops, fo, j) && stored_register(ops[j].op)
                            == reg;
                    assert(is_store(ops, fo, j));
                } else if stores_register(op) && stored_register(op) == reg {
                    assert(is_store(ops, fo, i));
                    assert(next.gpr(reg) == entry.gpr(reg));
                } else {
                    assert(next.gpr(reg) == context.gpr(reg));
                    if stored_from(ops, fo, reg, i) {
                        let j = choose|j: int|
                            i <= j && #[trigger] is_store(ops, fo, j) && stored_register(
                                ops[j].op,
                            ) == reg;
                        if j > i {
                            assert(is_store(ops, fo, j));
                        }
                    }
                }
            }
        } else {
            lemma_undo(entry, mem, ops, func_address, context, i + 1);
            let c = stack::undo_ops_from(context, ops, func_address, final_mem, i + 1)->Ok_0;
            assert forall|reg: u8| reg < 16 && reg != 4 implies (stored_from(ops, fo, reg, i)
                == stored_from(ops, fo, reg, i + 1)) by {
                if stored_from(ops, fo, reg, i) {
                    let j = choose|j: int|
                        i <= j && #[trigger] is_store(ops, fo, j) && stored_register(ops[j].op)
                            == reg;
                    assert(j != i);
                    assert(is_store(ops, fo, j));
                }
                if stored_from(ops, fo, reg, i + 1) {
                    let j = choose|j: int|
                        i + 1 <= j && #[trigger] is_store(ops, fo, j) && stored_register(ops[j].op)
                            == reg;
                    assert(is_store(ops, fo, j));
                }
            }
        }
    }
}

/// Unwinding undoes the prolog. Let a function be entered with the
/// registers `entry` and memory `mem`, and let its prolog run forwards
/// up to the offset that `context.rip` stands at. Whatever the function
/// body has since done to the registers, undoing the unwind codes gives
/// back the stack pointer of the entry and the entry value of every
/// register that the prolog pushed or saved, and changes no other
/// general register.
pub proof fn lemma_unwind_restores_entry(
    entry: ThreadContext,
    mem: Map<u64, u8>,
    ops: Seq<UnwindCode>,
    func_address: u64,
    context: ThreadContext,
)
    requires
        func_address <= context.rip,
        prolog_well_formed(entry, mem, ops, context.rip - func_address),
        context.rsp == prolog_state(entry, mem, ops, context.rip - func_address, 0).rsp,
    ensures
        stack::undo_ops_from(
            context,
            ops,
            func_address,
            prolog_state(entry, mem, ops, context.rip - func_address, 0).mem,
            0,
        ) is Ok,
        ({
            let c = stack::undo_ops_from(
                context,
                ops,
                func_address,
                prolog_state(entry, mem, ops, context.rip - func_address, 0).mem,
                0,
            )->Ok_0;
            &&& c.rsp == entry.rsp
            &&& c.rip == context.rip
            &&& forall|reg: u8|
                reg < 16 && reg != 4 ==> #[trigger] c.gpr(reg) == if stored_from(
                    ops,
                    context.rip - func_address,
                    reg,
                    0,
                ) {
                    entry.gpr(reg)
                } else {
                    context.gpr(reg)
                }
        }),
{
    lemma_undo(entry, mem, ops, func_address, context, 0);
}

} // verus!
