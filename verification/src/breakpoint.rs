//! Hardware execution breakpoints in the four debug registers.

use vstd::prelude::*;
use crate::bits;
use crate::error::DebugError;
use crate::module;
use crate::name_resolution;
use crate::process::Process;
use crate::registers::ThreadContext;
use crate::text;

verus! {

/// A breakpoint: the debug register it lives in and the address it guards.
#[derive(Clone, Copy, Debug, PartialEq, Eq, Structural)]
pub struct Breakpoint {
    pub addr: u64,
    pub id: u32,
}

/// The live breakpoints, at most four, in ascending order of id.
#[derive(Debug)]
pub struct BreakpointManager {
    breakpoints: Vec<Breakpoint>,
}

/// The resume flag of EFLAGS: no instruction breakpoint on the next instruction.
pub const EFLAG_RF: u32 = 0x1_0000;

/// The highest bit of the LEN field of slot `i` in DR7.
pub open spec fn dr7_len_bit(i: int) -> int {
    19 + 4 * i
}

/// The highest bit of the RW field of slot `i` in DR7.
pub open spec fn dr7_rw_bit(i: int) -> int {
    17 + 4 * i
}

/// The local-enable bit of slot `i` in DR7.
pub open spec fn dr7_le_bit(i: int) -> int {
    2 * i
}

/// Whether the list holds a breakpoint with this id.
pub open spec fn is_live(bps: Seq<Breakpoint>, id: int) -> bool {
    exists|k: int| 0 <= k < bps.len() && #[trigger] bps[k].id == id
}

/// The address guarded by the breakpoint with this id.
pub open spec fn address_of(bps: Seq<Breakpoint>, id: int) -> Option<u64> {
    if is_live(bps, id) {
        Some(bps[choose|k: int| 0 <= k < bps.len() && #[trigger] bps[k].id == id].addr)
    } else {
        None
    }
}

/// The lowest id in 0..4 that no breakpoint of the list has, or 4.
pub open spec fn lowest_free(bps: Seq<Breakpoint>) -> int {
    if !is_live(bps, 0) {
        0
    } else if !is_live(bps, 1) {
        1
    } else if !is_live(bps, 2) {
        2
    } else if !is_live(bps, 3) {
        3
    } else {
        4
    }
}

/// What adding a breakpoint at `addr` makes of a list: the new
/// breakpoint gets the lowest free id and the others stay; a full list
/// stays as it is.
pub open spec fn after_add(before: Seq<Breakpoint>, after: Seq<Breakpoint>, addr: u64) -> bool {
    if lowest_free(before) < 4 {
        &&& address_of(after, lowest_free(before)) == Some(addr)
        &&& forall|j: int|
            j != lowest_free(before) ==> address_of(after, j) == address_of(before, j)
        &&& after.len() == before.len() + 1
    } else {
        after == before
    }
}

/// What clearing the breakpoint `id` makes of a list.
pub open spec fn after_clear(before: Seq<Breakpoint>, after: Seq<Breakpoint>, id: int) -> bool {
    &&& !is_live(after, id)
    &&& forall|j: int| j != id ==> address_of(after, j) == address_of(before, j)
    &&& !is_live(before, id) ==> after == before
}

/// Ids ascend strictly and are below four.
pub open spec fn ids_ascend(bps: Seq<Breakpoint>) -> bool {
    &&& forall|i: int, j: int|
        0 <= i < j < bps.len() ==> (#[trigger] bps[i]).id < (#[trigger] bps[j]).id
    &&& forall|i: int| 0 <= i < bps.len() ==> (#[trigger] bps[i]).id < 4
}

/// DR7 with slot `i` programmed: for a live slot an execute breakpoint of
/// length one, locally enabled; for a free slot the local enable cleared.
pub open spec fn slot_programmed(dr7: u64, i: int, live: bool) -> u64 {
    if live {
        bits::with_field(
            bits::with_field(
                bits::with_field(dr7, 0, dr7_len_bit(i) as u64, 2),
                0,
                dr7_rw_bit(i) as u64,
                2,
            ),
            1,
            dr7_le_bit(i) as u64,
            1,
        )
    } else {
        bits::with_field(dr7, 0, dr7_le_bit(i) as u64, 1)
    }
}

/// DR7 with all four slots programmed.
pub open spec fn dr7_programmed(dr7: u64, bps: Seq<Breakpoint>) -> u64 {
    slot_programmed(
        slot_programmed(
            slot_programmed(slot_programmed(dr7, 0, is_live(bps, 0)), 1, is_live(bps, 1)),
            2,
            is_live(bps, 2),
        ),
        3,
        is_live(bps, 3),
    )
}

/// The address register of slot `i` after programming.
pub open spec fn dr_programmed(dr: u64, bps: Seq<Breakpoint>, i: int) -> u64 {
    match address_of(bps, i) {
        Some(addr) => addr,
        None => dr,
    }
}

/// The context of a thread with the breakpoints installed. The thread
/// that is about to resume gets the resume flag, so that it does not
/// stop again on the instruction it stands on.
pub open spec fn programmed(context: ThreadContext, bps: Seq<Breakpoint>, resume: bool)
    -> ThreadContext {
    ThreadContext {
        dr0: dr_programmed(context.dr0, bps, 0),
        dr1: dr_programmed(context.dr1, bps, 1),
        dr2: dr_programmed(context.dr2, bps, 2),
        dr3: dr_programmed(context.dr3, bps, 3),
        dr7: dr7_programmed(context.dr7, bps),
        eflags: if resume {
            context.eflags | EFLAG_RF
        } else {
            context.eflags
        },
        ..context
    }
}

/// The line that shows a breakpoint: its id, its address in sixteen
/// hexadecimal digits after `0x`, and in brackets the name of the
/// address where it has one.
pub open spec fn breakpoint_line(bp: Breakpoint, modules: Seq<module::Module>) -> Seq<char> {
    let head = text::dec_digits(bp.id as nat) + " 0x"@ + text::pad_left(
        text::hex_digits(bp.addr as nat, false),
        16,
        '0',
    );
    match name_resolution::name_of_address(modules, bp.addr) {
        Some(sym) => head + " ("@ + sym + ")"@,
        None => head,
    }
}

/// The lowest slot whose hit bit is set in DR6, from `i` on.
pub open spec fn lowest_hit(dr6: u64, i: int) -> Option<u32>
    decreases 4 - i,
{
    if i < 0 || i >= 4 {
        None
    } else if bits::mask_bit(dr6, i as u64) {
        Some(i as u32)
    } else {
        lowest_hit(dr6, i + 1)
    }
}

/// In a list whose ids ascend, the breakpoint with a given id is the one at its place.
proof fn lemma_live_unique(bps: Seq<Breakpoint>, k: int)
    requires
        ids_ascend(bps),
        0 <= k < bps.len(),
    ensures
        is_live(bps, bps[k].id as int),
        address_of(bps, bps[k].id as int) == Some(bps[k].addr),
{
    let id = bps[k].id as int;
    let c = choose|c: int| 0 <= c < bps.len() && #[trigger] bps[c].id == id;
    if c < k {
        assert(bps[c].id < bps[k].id);
    } else if k < c {
        assert(bps[k].id < bps[c].id);
    }
}

impl BreakpointManager {
    /// The live breakpoints in ascending order of id.
    pub closed spec fn breakpoints(&self) -> Seq<Breakpoint> {
        self.breakpoints@
    }

    /// The invariant of the manager: ids are below four and ascend, so
    /// no id is used twice and at most four breakpoints are live.
    pub open spec fn wf(&self) -> bool {
        ids_ascend(self.breakpoints())
    }

    /// A manager without breakpoints.
    pub fn new() -> (m: BreakpointManager)
        ensures
            m.wf(),
            m.breakpoints().len() == 0,
    {
        BreakpointManager { breakpoints: Vec::new() }
    }

    /// Whether a breakpoint with this id is live.
    fn has_id(&self, id: u32) -> (r: bool)
        ensures
            r == is_live(self.breakpoints(), id as int),
    {
        let mut k: usize = 0;
        while k < self.breakpoints.len()
            invariant
                k <= self.breakpoints.len(),
                forall|j: int| 0 <= j < k ==> (#[trigger] self.breakpoints@[j]).id != id,
            decreases self.breakpoints.len() - k,
        {
            if self.breakpoints[k].id == id {
                return true;
            }
            k = k + 1;
        }
        false
    }

    /// The lowest id that no live breakpoint has.
    pub fn get_free_id(&self) -> (r: Option<u32>)
        ensures
            match r {
                Some(id) => id < 4 && !is_live(self.breakpoints(), id as int) && forall|j: int|
                    0 <= j < id ==> is_live(self.breakpoints(), j),
                None => forall|j: int| 0 <= j < 4 ==> is_live(self.breakpoints(), j),
            },
    {
        let mut i: u32 = 0;
        while i < 4
            invariant
                i <= 4,
                forall|j: int| 0 <= j < i ==> is_live(self.breakpoints(), j),
            decreases 4 - i,
        {
            if !self.has_id(i) {
                return Some(i);
            }
            i = i + 1;
        }
        None
    }

    /// Sets a breakpoint at `addr` in the lowest free debug register and
    /// gives its id. With four breakpoints live nothing changes.
    pub fn add_breakpoint(&mut self, addr: u64) -> (r: Result<u32, DebugError>)
        requires
            old(self).wf(),
        ensures
            final(self).wf(),
            r == (if lowest_free(old(self).breakpoints()) < 4 {
                Ok::<u32, DebugError>(lowest_free(old(self).breakpoints()) as u32)
            } else {
                Err::<u32, DebugError>(DebugError::NoFreeBreakpoint)
            }),
            after_add(old(self).breakpoints(), final(self).breakpoints(), addr),
            match r {
                Ok(id) => {
                    &&& id < 4
                    &&& !is_live(old(self).breakpoints(), id as int)
                    &&& forall|j: int| 0 <= j < id ==> is_live(old(self).breakpoints(), j)
                    &&& address_of(final(self).breakpoints(), id as int) == Some(addr)
                    &&& forall|j: int|
                        j != id ==> address_of(final(self).breakpoints(), j) == address_of(
                            old(self).breakpoints(),
                            j,
                        )
                    &&& final(self).breakpoints().len() == old(self).breakpoints().len() + 1
                },
                Err(e) => {
                    &&& e == DebugError::NoFreeBreakpoint
                    &&& forall|j: int| 0 <= j < 4 ==> is_live(old(self).breakpoints(), j)
                    &&& final(self).breakpoints() == old(self).breakpoints()
                },
            },
    {
        let id = match self.get_free_id() {
            Some(id) => id,
            None => { return Err(DebugError::NoFreeBreakpoint); },
        };
        let mut pos: usize = 0;
        while pos < self.breakpoints.len() && self.breakpoints[pos].id < id
            invariant
                pos <= self.breakpoints.len(),
                self.breakpoints@ == old(self).breakpoints@,
                forall|j: int| 0 <= j < pos ==> (#[trigger] self.breakpoints@[j]).id < id,
            decreases self.breakpoints.len() - pos,
        {
            pos = pos + 1;
        }
        let ghost before = self.breakpoints@;
        self.breakpoints.insert(pos, Breakpoint { addr, id });
        proof {
            let after = self.breakpoints@;
            assert forall|j: int| pos <= j < before.len() implies (#[trigger] before[j]).id
                > id by {
                assert(before[pos as int].id >= id);
                assert(before[j].id != id);
                if j > pos {
                    assert(before[pos as int].id < before[j].id);
                }
            }
            assert forall|i: int, j: int| 0 <= i < j < after.len() implies (#[trigger] after[i]).id
                < (#[trigger] after[j]).id by {
                let bi = if i < pos { i } else { i - 1 };
                let bj = if j < pos { j } else { j - 1 };
                if i != pos && j != pos {
                    assert(after[i] == before[bi]);
                    assert(after[j] == before[bj]);
                    assert(before[bi].id < before[bj].id);
                } else if i == pos {
                    assert(after[j] == before[bj]);
                } else {
                    assert(after[i] == before[bi]);
                }
            }
            assert forall|i: int| 0 <= i < after.len() implies (#[trigger] after[i]).id < 4 by {
                if i != pos {
                    let bi = if i < pos { i } else { i - 1 };
                    assert(after[i] == before[bi]);
                }
            }
            lemma_live_unique(after, pos as int);
            assert forall|j: int| j != id implies address_of(after, j) == address_of(before, j) by {
                if is_live(before, j) {
                    let k = choose|k: int| 0 <= k < before.len() && #[trigger] before[k].id == j;
                    lemma_live_unique(before, k);
                    let ak = if k < pos { k } else { k + 1 };
                    assert(after[ak] == before[k]);
                    lemma_live_unique(after, ak);
                } else if is_live(after, j) {
                    let k = choose|k: int| 0 <= k < after.len() && #[trigger] after[k].id == j;
                    let bk = if k < pos { k } else { k - 1 };
                    assert(after[k] == before[bk]);
                    assert(before[bk].id == j);
                }
            }
        }
        Ok(id)
    }

    /// Clears the breakpoint with this id, if there is one.
    pub fn clear_breakpoint(&mut self, id: u32)
        requires
            old(self).wf(),
        ensures
            final(self).wf(),
            after_clear(old(self).breakpoints(), final(self).breakpoints(), id as int),
            !is_live(final(self).breakpoints(), id as int),
            forall|j: int|
                j != id ==> address_of(final(self).breakpoints(), j) == address_of(
                    old(self).breakpoints(),
                    j,
                ),
            !is_live(old(self).breakpoints(), id as int) ==> final(self).breakpoints()
                == old(self).breakpoints(),
    {
        let mut pos: usize = 0;
        while pos < self.breakpoints.len() && self.breakpoints[pos].id != id
            invariant
                pos <= self.breakpoints.len(),
                self.breakpoints@ == old(self).breakpoints@,
                forall|j: int| 0 <= j < pos ==> (#[trigger] self.breakpoints@[j]).id != id,
            decreases self.breakpoints.len() - pos,
        {
            pos = pos + 1;
        }
        if pos < self.breakpoints.len() {
            let ghost before = self.breakpoints@;
            self.breakpoints.remove(pos);
            proof {
                let after = self.breakpoints@;
                assert forall|i: int| 0 <= i < after.len() implies #[trigger] after[i] == before[if i
                    < pos {
                    i
                } else {
                    i + 1
                }] by {}
                assert forall|i: int, j: int| 0 <= i < j < after.len() implies (
                #[trigger] after[i]).id < (#[trigger] after[j]).id by {
                    let bi = if i < pos { i } else { i + 1 };
                    let bj = if j < pos { j } else { j + 1 };
                    assert(before[bi].id < before[bj].id);
                }
                assert(!is_live(after, id as int)) by {
                    if is_live(after, id as int) {
                        let k = choose|k: int| 0 <= k < after.len() && #[trigger] after[k].id == id;
                        let bk = if k < pos { k } else { k + 1 };
                        assert(before[bk].id == id);
                        if bk < pos {
                        } else {
                            assert(before[pos as int].id < before[bk].id);
                        }
                    }
                }
                assert forall|j: int| j != id implies address_of(after, j) == address_of(
                    before,
                    j,
                ) by {
                    if is_live(before, j) {
                        let k = choose|k: int|
                            0 <= k < before.len() && #[trigger] before[k].id == j;
                        lemma_live_unique(before, k);
                        let ak = if k < pos { k } else { k - 1 };
                        assert(after[ak] == before[k]);
                        lemma_live_unique(after, ak);
                    } else if is_live(after, j) {
                        let k = choose|k: int| 0 <= k < after.len() && #[trigger] after[k].id == j;
                        let bk = if k < pos { k } else { k + 1 };
                        assert(before[bk].id == j);
                    }
                }
            }
        }
    }

    /// The list of breakpoints as shown to the operator: one line for
    /// each, in ascending order of id.
    pub fn list_breakpoints(&self, process: &Process) -> (lines: Vec<String>)
        requires
            process.wf(),
        ensures
            text::views(lines@) == Seq::new(
                self.breakpoints().len(),
                |i: int| breakpoint_line(self.breakpoints()[i], process.modules()),
            ),
    {
        let mut lines: Vec<String> = Vec::new();
        let mut i: usize = 0;
        while i < self.breakpoints.len()
            invariant
                i <= self.breakpoints.len(),
                process.wf(),
                text::views(lines@) == Seq::new(
                    i as nat,
                    |k: int| breakpoint_line(self.breakpoints@[k], process.modules()),
                ),
            decreases self.breakpoints.len() - i,
        {
            let bp = self.breakpoints[i];
            let mut line = String::new();
            text::push_dec(&mut line, bp.id as u64, 0);
            text::push_str(&mut line, " 0x");
            text::push_hex(&mut line, bp.addr, 16, false);
            match name_resolution::resolve_address_to_name(bp.addr, process) {
                Some(sym) => {
                    text::push_str(&mut line, " (");
                    text::push_str(&mut line, sym.as_str());
                    text::push_str(&mut line, ")");
                },
                None => {},
            }
            proof {
                assert(line@ =~= breakpoint_line(bp, process.modules()));
                text::lemma_views_push(lines@, line);
            }
            lines.push(line);
            proof {
                assert(text::views(lines@) =~= Seq::new(
                    (i + 1) as nat,
                    |k: int| breakpoint_line(self.breakpoints@[k], process.modules()),
                ));
            }
            i = i + 1;
        }
        lines
    }

    /// The live breakpoints in ascending order of id.
    pub fn list(&self) -> (r: &Vec<Breakpoint>)
        ensures
            r@ == self.breakpoints(),
    {
        &self.breakpoints
    }

    /// The lowest debug register that reports a hit in DR6.
    pub fn was_breakpoint_hit(&self, thread_context: &ThreadContext) -> (r: Option<u32>)
        ensures
            r == lowest_hit(thread_context.dr6, 0),
    {
        let mut idx: usize = 0;
        while idx < 4
            invariant
                idx <= 4,
                lowest_hit(thread_context.dr6, 0) == lowest_hit(thread_context.dr6, idx as int),
            decreases 4 - idx,
        {
            if bits::get_bit(thread_context.dr6, idx) {
                return Some(idx as u32);
            }
            idx = idx + 1;
        }
        None
    }

    /// The address of the breakpoint with this id, if it is live.
    fn address_at(&self, id: u32) -> (r: Option<u64>)
        requires
            self.wf(),
        ensures
            r == address_of(self.breakpoints(), id as int),
    {
        let mut k: usize = 0;
        while k < self.breakpoints.len()
            invariant
                k <= self.breakpoints.len(),
                self.wf(),
                forall|j: int| 0 <= j < k ==> (#[trigger] self.breakpoints@[j]).id != id,
            decreases self.breakpoints.len() - k,
        {
            if self.breakpoints[k].id == id {
                proof {
                    lemma_live_unique(self.breakpoints(), k as int);
                }
                return Some(self.breakpoints[k].addr);
            }
            k = k + 1;
        }
        None
    }

    /// Installs the breakpoints in the context of one thread, to be
    /// written back before the target resumes. Each live breakpoint goes
    /// to the address register of its id, as an execute breakpoint of
    /// length one, locally enabled; free slots are disabled. `resume`
    /// says whether this is the thread that reported the event.
    pub fn apply_breakpoints(&self, context: &mut ThreadContext, resume: bool)
        requires
            self.wf(),
        ensures
            *final(context) == programmed(*old(context), self.breakpoints(), resume),
    {
        let a0 = self.address_at(0);
        let a1 = self.address_at(1);
        let a2 = self.address_at(2);
        let a3 = self.address_at(3);
        let mut dr7: u64 = context.dr7;
        program_slot(&mut dr7, 0, a0.is_some());
        program_slot(&mut dr7, 1, a1.is_some());
        program_slot(&mut dr7, 2, a2.is_some());
        program_slot(&mut dr7, 3, a3.is_some());
        context.dr7 = dr7;
        if let Some(addr) = a0 {
            context.dr0 = addr;
        }
        if let Some(addr) = a1 {
            context.dr1 = addr;
        }
        if let Some(addr) = a2 {
            context.dr2 = addr;
        }
        if let Some(addr) = a3 {
            context.dr3 = addr;
        }
        if resume {
            context.eflags = context.eflags | EFLAG_RF;
        }
    }
}

/// Programs one slot of DR7.
fn program_slot(dr7: &mut u64, i: usize, live: bool)
    requires
        i < 4,
    ensures
        *final(dr7) == slot_programmed(*old(dr7), i as int, live),
{
    if live {
        bits::set_bits(dr7, 0, 19 + 4 * i, 2);
        bits::set_bits(dr7, 0, 17 + 4 * i, 2);
        bits::set_bits(dr7, 1, 2 * i, 1);
    } else {
        bits::set_bits(dr7, 0, 2 * i, 1);
    }
}

/// The address register of slot `i`.
pub open spec fn debug_address(context: ThreadContext, i: int) -> u64 {
    if i == 0 {
        context.dr0
    } else if i == 1 {
        context.dr1
    } else if i == 2 {
        context.dr2
    } else {
        context.dr3
    }
}

/// What DR7 says of slot `i`: the local enable, and the RW and LEN fields.
pub open spec fn slot_enabled(dr7: u64, i: int) -> bool {
    bits::mask_bit(dr7, dr7_le_bit(i) as u64)
}

/// The RW field of slot `i`: 0 stands for execution.
pub open spec fn slot_rw(dr7: u64, i: int) -> u64 {
    bits::field_of(dr7, dr7_rw_bit(i) as u64, 2)
}

/// The LEN field of slot `i`: 0 stands for one byte.
pub open spec fn slot_len(dr7: u64, i: int) -> u64 {
    bits::field_of(dr7, dr7_len_bit(i) as u64, 2)
}

/// What DR7 shows of each slot after all four are programmed.
proof fn lemma_dr7_bits(dr7: u64, l0: bool, l1: bool, l2: bool, l3: bool)
    by (bit_vector)
    ensures
        ({
            let v = slot_programmed(
                slot_programmed(slot_programmed(slot_programmed(dr7, 0, l0), 1, l1), 2, l2),
                3,
                l3,
            );
            &&& slot_enabled(v, 0) == l0
            &&& slot_enabled(v, 1) == l1
            &&& slot_enabled(v, 2) == l2
            &&& slot_enabled(v, 3) == l3
            &&& l0 ==> slot_rw(v, 0) == 0 && slot_len(v, 0) == 0
            &&& l1 ==> slot_rw(v, 1) == 0 && slot_len(v, 1) == 0
            &&& l2 ==> slot_rw(v, 2) == 0 && slot_len(v, 2) == 0
            &&& l3 ==> slot_rw(v, 3) == 0 && slot_len(v, 3) == 0
        }),
{
}

/// Installing the breakpoints and reading the debug registers back
/// agree: for a live breakpoint the address register of its slot holds
/// its address, and DR7 shows the slot enabled with RW and LEN zero; for
/// a free slot DR7 shows the slot disabled.
pub proof fn lemma_programmed_round_trip(
    context: ThreadContext,
    bps: Seq<Breakpoint>,
    resume: bool,
    slot: int,
)
    requires
        0 <= slot < 4,
    ensures
        match address_of(bps, slot) {
            Some(addr) => {
                &&& debug_address(programmed(context, bps, resume), slot) == addr
                &&& slot_enabled(programmed(context, bps, resume).dr7, slot)
                &&& slot_rw(programmed(context, bps, resume).dr7, slot) == 0
                &&& slot_len(programmed(context, bps, resume).dr7, slot) == 0
            },
            None => !slot_enabled(programmed(context, bps, resume).dr7, slot),
        },
{
    lemma_dr7_bits(context.dr7, is_live(bps, 0), is_live(bps, 1), is_live(bps, 2), is_live(bps, 3));
}

/// In a list whose ids ascend and stay below four, the k-th id is at least k.
proof fn lemma_id_at_least_index(bps: Seq<Breakpoint>, k: int)
    requires
        ids_ascend(bps),
        0 <= k < bps.len(),
    ensures
        bps[k].id >= k,
    decreases k,
{
    if k > 0 {
        lemma_id_at_least_index(bps, k - 1);
        assert(bps[k - 1].id < bps[k].id);
    }
}

/// The ids of live breakpoints are pairwise distinct, and at most four
/// breakpoints are live.
pub proof fn lemma_ids_distinct(bps: Seq<Breakpoint>)
    requires
        ids_ascend(bps),
    ensures
        forall|i: int, j: int|
            0 <= i < bps.len() && 0 <= j < bps.len() && i != j ==> (#[trigger] bps[i]).id != (
            #[trigger] bps[j]).id,
        bps.len() <= 4,
{
    assert forall|i: int, j: int| 0 <= i < bps.len() && 0 <= j < bps.len() && i != j implies (
    #[trigger] bps[i]).id != (#[trigger] bps[j]).id by {
        if i < j {
            assert(bps[i].id < bps[j].id);
        } else {
            assert(bps[j].id < bps[i].id);
        }
    }
    if bps.len() > 4 {
        lemma_id_at_least_index(bps, 4);
    }
}

} // verus!
