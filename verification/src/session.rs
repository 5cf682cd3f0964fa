//! The decisions of the debug loop.
//!
//! The host program waits for debug events, reads and writes thread
//! contexts and talks to the operator. What to do about an event, what a
//! command means and what to show are decided here.

use vstd::prelude::*;
use crate::breakpoint;
use crate::breakpoint::BreakpointManager;
use crate::command::{CommandExpr, CommandModel, EvalExpr};
use crate::error::DebugError;
use crate::eval;
use crate::memory;
use crate::registers;
use crate::source;
use crate::stack;
use crate::unassemble;
use crate::event::{DebugEvent, EventContext, EventModel};
use crate::event;
use crate::memory::MemorySource;
use crate::module;
use crate::name_resolution;
use crate::process;
use crate::process::Process;
use crate::registers::ThreadContext;
use crate::text;

verus! {

/// The exception code of a completed single step (0x80000004).
pub const EXCEPTION_SINGLE_STEP: i32 = -2147483644;

/// The trap flag of EFLAGS: stop after the next instruction.
pub const TRAP_FLAG: u32 = 0x100;

/// How the target goes on after an event.
#[derive(Clone, Copy, Debug, PartialEq, Eq, Structural)]
pub enum ContinueStatus {
    /// The event is dealt with.
    Continue,
    /// The exception goes back to the target as unhandled.
    ExceptionNotHandled,
}

/// What the debugger owns for one session.
pub struct Debugger {
    pub process: Process,
    pub breakpoints: BreakpointManager,
    pub source_search_paths: Vec<String>,
    /// Whether the target was resumed for a single step, so that the next
    /// single-step exception is the debugger's own.
    pub expect_step_exception: bool,
    /// Where `u` without operand goes on.
    pub next_unassemble_address: u64,
}

/// What came of an event: how to continue, whether the target has
/// exited, and what to tell the operator.
#[derive(Debug, PartialEq, Eq)]
pub struct EventOutcome {
    pub continue_status: ContinueStatus,
    pub is_exit: bool,
    pub output: Vec<String>,
}

/// The exception code as the 32 bits it is stored in.
pub open spec fn code_bits(code: i32) -> u32 {
    if code >= 0 {
        code as u32
    } else {
        (code + 0x1_0000_0000) as u32
    }
}

/// The line that reports an exception that is not the debugger's own.
pub open spec fn exception_line(first_chance: bool, code: i32) -> Seq<char> {
    "Exception code "@ + text::hex_digits(code_bits(code) as nat, false) + (if first_chance {
        " (first chance)"@
    } else {
        " (second chance)"@
    })
}

/// The line that reports a breakpoint hit.
pub open spec fn breakpoint_hit_line(id: u32) -> Seq<char> {
    "Breakpoint "@ + text::dec_digits(id as nat) + " hit"@
}

/// What becomes of an exception: a single step that the debugger asked
/// for is swallowed without a word; so is a hit of one of its
/// breakpoints, which is reported; any other exception is reported and
/// goes back to the target. The result is the continuation, whether a
/// single step is still awaited, and the lines to show.
pub open spec fn exception_outcome(expect_step: bool, first_chance: bool, code: i32, dr6: u64) -> (
    ContinueStatus,
    bool,
    Seq<Seq<char>>,
) {
    if expect_step && code == EXCEPTION_SINGLE_STEP {
        (ContinueStatus::Continue, false, Seq::empty())
    } else {
        match breakpoint::lowest_hit(dr6, 0) {
            Some(id) => (ContinueStatus::Continue, expect_step, seq![breakpoint_hit_line(id)]),
            None => (
                ContinueStatus::ExceptionNotHandled,
                expect_step,
                seq![exception_line(first_chance, code)],
            ),
        }
    }
}

/// The line that reports a module load, or why the module was not loaded.
pub open spec fn load_line(
    address: u64,
    loaded: Result<module::ModuleImage, DebugError>,
) -> Seq<char> {
    match loaded {
        Ok(image) => "LoadDll: "@ + text::hex_digits(address as nat, true) + "   "@ + image.name,
        Err(e) => "Could not load module at "@ + text::hex_digits(address as nat, true) + ": "@
            + e.spec_message(),
    }
}

/// The thread list with `id` listed.
pub open spec fn with_thread(threads: Seq<u32>, id: u32) -> Seq<u32> {
    if threads.contains(id) {
        threads
    } else {
        threads.push(id)
    }
}

/// The exception code as the 32 bits it is stored in.
fn code_as_bits(code: i32) -> (r: u32)
    ensures
        r == code_bits(code),
{
    if code >= 0 {
        code as u32
    } else {
        (code as i64 + 0x1_0000_0000) as u32
    }
}

/// Three pieces of text in a row.
fn line3(a: &str, b: &str, c: &str) -> (s: String)
    ensures
        s@ == a@ + b@ + c@,
{
    let mut s = String::new();
    text::push_str(&mut s, a);
    text::push_str(&mut s, b);
    text::push_str(&mut s, c);
    proof {
        assert(s@ =~= a@ + b@ + c@);
    }
    s
}

/// The text as a string of its own.
fn literal(a: &str) -> (s: String)
    ensures
        s@ == a@,
{
    let mut s = String::new();
    text::push_str(&mut s, a);
    proof {
        assert(s@ =~= a@);
    }
    s
}

/// Two pieces of text in a row.
fn line2(a: &str, b: &str) -> (s: String)
    ensures
        s@ == a@ + b@,
{
    let mut s = String::new();
    text::push_str(&mut s, a);
    text::push_str(&mut s, b);
    proof {
        assert(s@ =~= a@ + b@);
    }
    s
}

/// An output of one line.
fn one(line: String) -> (lines: Vec<String>)
    ensures
        text::views(lines@) == seq![line@],
{
    let mut lines: Vec<String> = Vec::new();
    lines.push(line);
    proof {
        assert(text::views(lines@) =~= seq![line@]);
    }
    lines
}

/// An output without lines.
fn none() -> (lines: Vec<String>)
    ensures
        text::views(lines@) == Seq::<Seq<char>>::empty(),
{
    let lines: Vec<String> = Vec::new();
    proof {
        assert(text::views(lines@) =~= Seq::<Seq<char>>::empty());
    }
    lines
}

/// `v` in hexadecimal, zero-filled to `width` digits.
fn hex_string(v: u64, width: usize, upper: bool) -> (s: String)
    ensures
        s@ == text::pad_left(text::hex_digits(v as nat, upper), width as nat, '0'),
{
    let mut s = String::new();
    text::push_hex(&mut s, v, width, upper);
    proof {
        assert(s@ =~= text::pad_left(text::hex_digits(v as nat, upper), width as nat, '0'));
    }
    s
}

/// `v` in decimal.
fn dec_string(v: u64) -> (s: String)
    ensures
        s@ == text::dec_digits(v as nat),
{
    let mut s = String::new();
    text::push_dec(&mut s, v, 0);
    proof {
        assert(s@ =~= text::dec_digits(v as nat));
    }
    s
}

impl Debugger {
    /// The invariant of a session: that of its process and of its breakpoints.
    pub open spec fn wf(&self) -> bool {
        self.process.wf() && self.breakpoints.wf()
    }

    /// A session before the first event.
    pub fn new() -> (d: Debugger)
        ensures
            d.wf(),
            d.process.modules().len() == 0,
            d.process.threads().len() == 0,
            d.breakpoints.breakpoints().len() == 0,
            d.source_search_paths@.len() == 0,
            !d.expect_step_exception,
            d.next_unassemble_address == 0,
    {
        Debugger {
            process: Process::new(),
            breakpoints: BreakpointManager::new(),
            source_search_paths: Vec::new(),
            expect_step_exception: false,
            next_unassemble_address: 0,
        }
    }

    /// Loads the image at `address` and reports it, or reports why it cannot be loaded.
    fn load_module<M: MemorySource + ?Sized>(
        &mut self,
        address: u64,
        name: Option<String>,
        memory_source: &M,
    ) -> (line: String)
        requires
            old(self).wf(),
        ensures
            final(self).wf(),
            final(self).breakpoints == old(self).breakpoints,
            final(self).source_search_paths == old(self).source_search_paths,
            final(self).expect_step_exception == old(self).expect_step_exception,
            final(self).next_unassemble_address == old(self).next_unassemble_address,
            final(self).process.threads() == old(self).process.threads(),
            line@ == load_line(
                address,
                process::load_result(
                    old(self).process.modules(),
                    memory_source.view(),
                    address,
                    module::opt_view(name),
                ),
            ),
            process::after_load(
                old(self).process.modules(),
                final(self).process.modules(),
                process::load_result(
                    old(self).process.modules(),
                    memory_source.view(),
                    address,
                    module::opt_view(name),
                ),
            ),
    {
        let where_ = hex_string(address, 0, true);
        match self.process.add_module(address, name, memory_source) {
            Ok(m) => {
                let mut line = line3("LoadDll: ", where_.as_str(), "   ");
                text::push_str(&mut line, m.name.as_str());
                line
            },
            Err(e) => {
                let mut line = line3("Could not load module at ", where_.as_str(), ": ");
                text::push_str(&mut line, e.message());
                line
            },
        }
    }

    /// Deals with a debug event of the thread whose registers are
    /// `context`: keeps the lists of modules and threads up to date,
    /// tells the debugger's own exceptions from the target's, and says
    /// how the target is to continue.
    pub fn handle_event<M: MemorySource + ?Sized>(
        &mut self,
        event_context: &EventContext,
        debug_event: DebugEvent,
        context: &ThreadContext,
        memory_source: &M,
    ) -> (r: EventOutcome)
        requires
            old(self).wf(),
        ensures
            final(self).wf(),
            final(self).breakpoints == old(self).breakpoints,
            final(self).source_search_paths == old(self).source_search_paths,
            final(self).next_unassemble_address == context.rip,
            r.is_exit == (debug_event@ is ExitProcess),
            match debug_event@ {
                EventModel::Exception { first_chance, exception_code } => {
                    &&& (r.continue_status, final(self).expect_step_exception, text::views(
                        r.output@,
                    )) == exception_outcome(
                        old(self).expect_step_exception,
                        first_chance,
                        exception_code,
                        context.dr6,
                    )
                    &&& final(self).process.modules() == old(self).process.modules()
                    &&& final(self).process.threads() == old(self).process.threads()
                },
                EventModel::CreateProcess { exe_name, exe_base } => {
                    &&& final(self).process.threads() == with_thread(
                        old(self).process.threads(),
                        event_context.thread_id,
                    )
                    &&& text::views(r.output@) == seq![
                        load_line(
                            exe_base,
                            process::load_result(
                                old(self).process.modules(),
                                memory_source.view(),
                                exe_base,
                                exe_name,
                            ),
                        ),
                    ]
                    &&& process::after_load(
                        old(self).process.modules(),
                        final(self).process.modules(),
                        process::load_result(
                            old(self).process.modules(),
                            memory_source.view(),
                            exe_base,
                            exe_name,
                        ),
                    )
                },
                EventModel::LoadModule { module_name, module_base } => {
                    &&& final(self).process.threads() == old(self).process.threads()
                    &&& text::views(r.output@) == seq![
                        load_line(
                            module_base,
                            process::load_result(
                                old(self).process.modules(),
                                memory_source.view(),
                                module_base,
                                module_name,
                            ),
                        ),
                    ]
                    &&& process::after_load(
                        old(self).process.modules(),
                        final(self).process.modules(),
                        process::load_result(
                            old(self).process.modules(),
                            memory_source.view(),
                            module_base,
                            module_name,
                        ),
                    )
                },
                EventModel::CreateThread { thread_id } => {
                    &&& final(self).process.modules() == old(self).process.modules()
                    &&& final(self).process.threads() == with_thread(
                        old(self).process.threads(),
                        thread_id,
                    )
                    &&& text::views(r.output@) == seq![
                        "Thread created: "@ + text::hex_digits(thread_id as nat, false),
                    ]
                },
                EventModel::ExitThread { thread_id } => {
                    &&& final(self).process.modules() == old(self).process.modules()
                    &&& final(self).process.threads() == process::without(
                        old(self).process.threads(),
                        thread_id,
                    )
                    &&& text::views(r.output@) == seq![
                        "Thread exited: "@ + text::hex_digits(thread_id as nat, false),
                    ]
                },
                EventModel::OutputDebugString(s) => {
                    &&& final(self).process.modules() == old(self).process.modules()
                    &&& final(self).process.threads() == old(self).process.threads()
                    &&& text::views(r.output@) == seq!["DebugOut: "@ + s]
                },
                EventModel::Other(s) => {
                    &&& final(self).process.modules() == old(self).process.modules()
                    &&& final(self).process.threads() == old(self).process.threads()
                    &&& text::views(r.output@) == seq![s]
                },
                EventModel::ExitProcess => {
                    &&& final(self).process.modules() == old(self).process.modules()
                    &&& final(self).process.threads() == old(self).process.threads()
                    &&& text::views(r.output@) == seq!["ExitProcess"@]
                },
            },
            !(debug_event@ is Exception) ==> r.continue_status == ContinueStatus::Continue
                && final(self).expect_step_exception == old(self).expect_step_exception,
    {
        self.next_unassemble_address = context.rip;
        match debug_event {
            DebugEvent::Exception { first_chance, exception_code } => self.on_exception(
                first_chance,
                exception_code,
                context,
            ),
            DebugEvent::CreateProcess { exe_name, exe_base } => {
                let line = self.load_module(exe_base, exe_name, memory_source);
                self.process.add_thread(event_context.thread_id);
                EventOutcome {
                    continue_status: ContinueStatus::Continue,
                    is_exit: false,
                    output: one(line),
                }
            },
            DebugEvent::LoadModule { module_name, module_base } => {
                let line = self.load_module(module_base, module_name, memory_source);
                EventOutcome {
                    continue_status: ContinueStatus::Continue,
                    is_exit: false,
                    output: one(line),
                }
            },
            DebugEvent::CreateThread { thread_id } => {
                self.process.add_thread(thread_id);
                let id = hex_string(thread_id as u64, 0, false);
                EventOutcome {
                    continue_status: ContinueStatus::Continue,
                    is_exit: false,
                    output: one(line2("Thread created: ", id.as_str())),
                }
            },
            DebugEvent::ExitThread { thread_id } => {
                self.process.remove_thread(thread_id);
                let id = hex_string(thread_id as u64, 0, false);
                EventOutcome {
                    continue_status: ContinueStatus::Continue,
                    is_exit: false,
                    output: one(line2("Thread exited: ", id.as_str())),
                }
            },
            DebugEvent::OutputDebugString(debug_string) => EventOutcome {
                continue_status: ContinueStatus::Continue,
                is_exit: false,
                output: one(line2("DebugOut: ", debug_string.as_str())),
            },
            DebugEvent::Other(msg) => EventOutcome {
                continue_status: ContinueStatus::Continue,
                is_exit: false,
                output: one(msg),
            },
            DebugEvent::ExitProcess => EventOutcome {
                continue_status: ContinueStatus::Continue,
                is_exit: true,
                output: one(literal("ExitProcess")),
            },
        }
    }

    /// Decides about an exception.
    fn on_exception(&mut self, first_chance: bool, exception_code: i32, context: &ThreadContext) -> (r:
        EventOutcome)
        ensures
            final(self).process == old(self).process,
            final(self).breakpoints == old(self).breakpoints,
            final(self).source_search_paths == old(self).source_search_paths,
            final(self).next_unassemble_address == old(self).next_unassemble_address,
            !r.is_exit,
            (r.continue_status, final(self).expect_step_exception, text::views(r.output@))
                == exception_outcome(
                old(self).expect_step_exception,
                first_chance,
                exception_code,
                context.dr6,
            ),
    {
        if self.expect_step_exception && exception_code == EXCEPTION_SINGLE_STEP {
            self.expect_step_exception = false;
            EventOutcome { continue_status: ContinueStatus::Continue, is_exit: false, output: none() }
        } else if let Some(bp_index) = self.breakpoints.was_breakpoint_hit(context) {
            let id = dec_string(bp_index as u64);
            EventOutcome {
                continue_status: ContinueStatus::Continue,
                is_exit: false,
                output: one(line3("Breakpoint ", id.as_str(), " hit")),
            }
        } else {
            let chance_string = if first_chance {
                " (first chance)"
            } else {
                " (second chance)"
            };
            let code = hex_string(code_as_bits(exception_code) as u64, 0, false);
            EventOutcome {
                continue_status: ContinueStatus::ExceptionNotHandled,
                is_exit: false,
                output: one(line3("Exception code ", code.as_str(), chance_string)),
            }
        }
    }
}

/// What the host program does after a command.
#[derive(Clone, Copy, Debug, PartialEq, Eq, Structural)]
pub enum CommandAction {
    /// Ask for the next command.
    Prompt,
    /// Let the target run.
    Resume,
    /// Write the context back, which has the trap flag set, and let the
    /// target run one instruction.
    Step,
    /// End the session, and with it the target.
    Quit,
}

/// A place in a source file.
#[derive(Debug, PartialEq, Eq)]
pub struct SourceLocation {
    pub file: String,
    pub line: u32,
}

/// What came of a command: what to show, what to do next, and for `lsa`
/// the source line to show an excerpt of.
#[derive(Debug, PartialEq, Eq)]
pub struct CommandOutcome {
    pub action: CommandAction,
    pub output: Vec<String>,
    pub source: Option<SourceLocation>,
}

/// The most frames that a stack walk shows.
pub const MAX_FRAMES: u32 = 0xffff_ffff;

/// How many bytes `db` shows.
pub const DISPLAY_BYTES: usize = 16;

/// How many instructions `u` lists.
pub const UNASSEMBLE_LINES: usize = 16;

/// The line that says why an expression has no value.
pub open spec fn evaluation_failure(e: DebugError) -> Seq<char> {
    "Could not evaluate expression: "@ + e.spec_message()
}

/// The line of the prompt: the thread in brackets, and where it stands.
pub open spec fn prompt_line(thread_id: u32, rip: u64, modules: Seq<module::Module>) -> Seq<char> {
    "["@ + text::hex_digits(thread_id as nat, true) + "] "@ + (match name_resolution::name_of_address(
        modules,
        rip,
    ) {
        Some(sym) => sym,
        None => "0x"@ + text::pad_left(text::hex_digits(rip as nat, false), 16, '0'),
    })
}

/// The line that shows a value: `= 0x` and the value in capital
/// hexadecimal digits.
pub open spec fn value_line(v: u64) -> Seq<char> {
    "= 0x"@ + text::hex_digits(v as nat, true)
}

/// The line that shows bytes: each in two capital hexadecimal digits
/// and followed by a blank.
pub open spec fn bytes_line(bytes: Seq<u8>) -> Seq<char>
    decreases bytes.len(),
{
    if bytes.len() == 0 {
        Seq::empty()
    } else {
        bytes_line(bytes.drop_last()) + text::pad_left(
            text::hex_digits(bytes.last() as nat, true),
            2,
            '0',
        ) + seq![' ']
    }
}

/// One frame of a stack walk: its number in two hexadecimal digits, the
/// stack pointer in sixteen, and the name of the place, or its address.
pub open spec fn frame_line(frame: u32, context: ThreadContext, modules: Seq<module::Module>)
    -> Seq<char> {
    text::pad_left(text::hex_digits(frame as nat, true), 2, '0') + " 0x"@ + text::pad_left(
        text::hex_digits(context.rsp as nat, true),
        16,
        '0',
    ) + " "@ + (match name_resolution::name_of_address(modules, context.rip) {
        Some(sym) => sym,
        None => "0x"@ + text::hex_digits(context.rip as nat, true),
    })
}

/// The frames of a stack walk from frame number `frame` on: the frame
/// of `context`, then those of its callers, until unwinding gives no
/// caller or fails.
pub open spec fn walk_lines(
    modules: Seq<module::Module>,
    context: ThreadContext,
    mem: Map<u64, u8>,
    frame: u32,
) -> Seq<Seq<char>>
    decreases MAX_FRAMES - frame,
{
    if frame >= MAX_FRAMES {
        Seq::empty()
    } else {
        seq![frame_line(frame, context, modules)] + (match stack::caller_context(
            modules,
            context,
            mem,
        ) {
            Ok(Some(caller)) => walk_lines(modules, caller, mem, (frame + 1) as u32),
            _ => Seq::empty(),
        })
    }
}

/// The parts of `s` between the separators `sep`, empty parts too.
pub open spec fn split_from(s: Seq<char>, sep: char, i: int, current: Seq<char>) -> Seq<Seq<char>>
    decreases s.len() - i,
{
    if i < 0 || i >= s.len() {
        seq![current]
    } else if s[i] == sep {
        seq![current] + split_from(s, sep, i + 1, Seq::empty())
    } else {
        split_from(s, sep, i + 1, current.push(s[i]))
    }
}

/// The search roots that a `srcpath` operand names: its parts between semicolons.
pub open spec fn search_roots(operand: Seq<char>) -> Seq<Seq<char>> {
    split_from(operand, ';', 0, Seq::empty())
}

/// One line of a source excerpt: the line number right-aligned in five
/// columns, or in four after a `>` for the line asked for; a colon, a
/// blank and the line.
pub open spec fn excerpt_line(number: nat, current: u32, line: Seq<char>) -> Seq<char> {
    (if number == current {
        ">"@ + text::pad_left(text::dec_digits(number), 4, ' ')
    } else {
        text::pad_left(text::dec_digits(number), 5, ' ')
    }) + ": "@ + line
}

/// The first line of the excerpt around `line_number`: two lines before it, but not before line 1.
pub open spec fn excerpt_first(line_number: u32) -> int {
    if line_number > 3 {
        line_number - 2
    } else {
        1
    }
}

/// The last line of the excerpt: two lines after `line_number`, but not
/// after the last line of the file.
pub open spec fn excerpt_last(count: nat, line_number: u32) -> int {
    if line_number + 2 < count {
        line_number + 2
    } else {
        count as int
    }
}

/// The excerpt of a file around a line: the line, marked, with two lines
/// of context on each side as far as the file has them. Lines count from 1.
pub open spec fn excerpt_of(lines: Seq<Seq<char>>, line_number: u32) -> Seq<Seq<char>> {
    let first = excerpt_first(line_number);
    let last = excerpt_last(lines.len(), line_number);
    if last < first {
        Seq::empty()
    } else {
        Seq::new(
            (last - first + 1) as nat,
            |i: int| excerpt_line((first + i) as nat, line_number, lines[first + i - 1]),
        )
    }
}

/// Line `n` of a file as the excerpt shows it.
fn excerpt_entry(lines: &Vec<String>, n: usize, line_number: u32) -> (s: String)
    requires
        1 <= n <= lines.len(),
    ensures
        s@ == excerpt_line(n as nat, line_number, text::views(lines@)[n - 1]),
{
    let mut s = String::new();
    if n as u64 == line_number as u64 {
        text::push_str(&mut s, ">");
        text::push_dec(&mut s, n as u64, 4);
    } else {
        text::push_dec(&mut s, n as u64, 5);
    }
    text::push_str(&mut s, ": ");
    text::push_str(&mut s, lines[n - 1].as_str());
    proof {
        assert(s@ =~= excerpt_line(n as nat, line_number, text::views(lines@)[n - 1]));
    }
    s
}

/// Formats the excerpt of a source file around `line_number`.
pub fn source_excerpt(lines: &Vec<String>, line_number: u32) -> (r: Vec<String>)
    ensures
        text::views(r@) == excerpt_of(text::views(lines@), line_number),
{
    let first: usize = if line_number > 3 {
        (line_number - 2) as usize
    } else {
        1
    };
    let last: usize = if (line_number as u64 + 2) < lines.len() as u64 {
        (line_number as u64 + 2) as usize
    } else {
        lines.len()
    };
    let mut out: Vec<String> = Vec::new();
    if last < first {
        proof {
            assert(text::views(out@) =~= excerpt_of(text::views(lines@), line_number));
        }
        return out;
    }
    let mut n: usize = first;
    while n < last
        invariant
            1 <= first <= n <= last,
            last <= lines.len(),
            text::views(out@) == Seq::new(
                (n - first) as nat,
                |i: int|
                    excerpt_line((first + i) as nat, line_number, text::views(lines@)[first + i - 1]),
            ),
        decreases last - n,
    {
        let s = excerpt_entry(lines, n, line_number);
        proof {
            text::lemma_views_push(out@, s);
        }
        out.push(s);
        proof {
            assert(text::views(out@) =~= Seq::new(
                (n + 1 - first) as nat,
                |i: int|
                    excerpt_line((first + i) as nat, line_number, text::views(lines@)[first + i - 1]),
            ));
        }
        n = n + 1;
    }
    let s = excerpt_entry(lines, last, line_number);
    proof {
        text::lemma_views_push(out@, s);
    }
    out.push(s);
    proof {
        assert(text::views(out@) =~= excerpt_of(text::views(lines@), line_number));
    }
    out
}

/// Splits a `srcpath` operand into search roots.
pub fn split_search_paths(operand: &str) -> (r: Vec<String>)
    ensures
        text::views(r@) == search_roots(operand@),
{
    let chars = text::chars_of(operand);
    let mut out: Vec<String> = Vec::new();
    let mut start: usize = 0;
    let mut i: usize = 0;
    proof {
        assert(chars@.subrange(0, 0) =~= Seq::<char>::empty());
        assert(text::views(out@) + search_roots(operand@) =~= search_roots(operand@));
    }
    while i < chars.len()
        invariant
            start <= i <= chars.len(),
            chars@ == operand@,
            search_roots(operand@) == text::views(out@) + split_from(
                operand@,
                ';',
                i as int,
                chars@.subrange(start as int, i as int),
            ),
        decreases chars.len() - i,
    {
        if chars[i] == ';' {
            let part = text::string_of(&chars, start, i);
            let ghost before = out@;
            proof {
                text::lemma_views_push(before, part);
            }
            out.push(part);
            proof {
                assert(chars@.subrange(i + 1, i + 1) =~= Seq::<char>::empty());
                assert(text::views(before) + (seq![part@] + split_from(
                    operand@,
                    ';',
                    i + 1,
                    Seq::empty(),
                )) =~= text::views(out@) + split_from(operand@, ';', i + 1, Seq::empty()));
            }
            start = i + 1;
        } else {
            proof {
                assert(chars@.subrange(start as int, i as int).push(chars@[i as int])
                    =~= chars@.subrange(start as int, i + 1));
            }
        }
        i = i + 1;
    }
    let part = text::string_of(&chars, start, chars.len());
    proof {
        text::lemma_views_push(out@, part);
    }
    out.push(part);
    out
}

/// What a command shows and asks of the host program.
pub struct Effect {
    pub action: CommandAction,
    pub output: Seq<Seq<char>>,
    pub source: Option<(Seq<char>, u32)>,
}

/// The view of an outcome.
pub open spec fn effect_of(outcome: CommandOutcome) -> Effect {
    Effect {
        action: outcome.action,
        output: text::views(outcome.output@),
        source: match outcome.source {
            Some(place) => Some((place.file@, place.line)),
            None => None,
        },
    }
}

/// An effect that shows lines and asks for the next command.
pub open spec fn shows(lines: Seq<Seq<char>>) -> Effect {
    Effect { action: CommandAction::Prompt, output: lines, source: None }
}

/// The first line of a stack walk.
pub open spec fn stack_header() -> Seq<char> {
    " #   RSP              Call Site"@
}

/// The listing that `u` shows for the address `va`.
pub open spec fn listing_at(mem: Map<u64, u8>, va: u64) -> unassemble::Listing {
    unassemble::listing_from(
        unassemble::present(memory::gaps_at(mem, va as int, unassemble::LISTING_WINDOW as nat)),
        va,
        0,
        UNASSEMBLE_LINES as nat,
    )
}

/// The lines of `file:line`.
pub open spec fn location_line(file: Seq<char>, line: u32) -> Seq<char> {
    file + ":"@ + text::dec_digits(line as nat)
}

/// What a command that changes nothing shows, given the value of its operand.
pub open spec fn display_effect(
    command: CommandModel,
    value: Result<u64, DebugError>,
    modules: Seq<module::Module>,
    context: ThreadContext,
    mem: Map<u64, u8>,
) -> Effect {
    match value {
        Err(e) => shows(seq![evaluation_failure(e)]),
        Ok(v) => match command {
            CommandModel::Evaluate(_) => shows(seq![value_line(v)]),
            CommandModel::ListNearest(_) => shows(
                seq![
                    match name_resolution::name_of_address(modules, v) {
                        Some(sym) => sym,
                        None => "No symbol found"@,
                    },
                ],
            ),
            CommandModel::DisplayBytes(_) => shows(
                seq![
                    bytes_line(
                        memory::bytes_at(
                            mem,
                            v as int,
                            memory::readable_prefix_len(mem, v as int, DISPLAY_BYTES as nat),
                        ),
                    ),
                ],
            ),
            CommandModel::ListSource(_) => match source::source_line_of(modules, v) {
                Ok((file, line)) => Effect {
                    action: CommandAction::Prompt,
                    output: seq![location_line(file, line)],
                    source: Some((file, line)),
                },
                Err(e) => shows(seq!["Couldn't look up source: "@ + e.spec_message()]),
            },
            _ => shows(Seq::empty()),
        },
    }
}

/// The outcome that shows lines and asks for the next command.
fn show(lines: Vec<String>) -> (r: CommandOutcome)
    ensures
        effect_of(r) == shows(text::views(lines@)),
{
    CommandOutcome { action: CommandAction::Prompt, output: lines, source: None }
}

/// The outcome for an operand without value.
fn failure(e: DebugError) -> (r: CommandOutcome)
    ensures
        effect_of(r) == shows(seq![evaluation_failure(e)]),
{
    show(one(line2("Could not evaluate expression: ", e.message())))
}

/// Formats bytes for `db`.
fn format_bytes(bytes: &Vec<u8>) -> (s: String)
    ensures
        s@ == bytes_line(bytes@),
{
    let mut s = String::new();
    let mut i: usize = 0;
    proof {
        assert(s@ =~= bytes_line(bytes@.take(0)));
    }
    while i < bytes.len()
        invariant
            i <= bytes.len(),
            s@ == bytes_line(bytes@.take(i as int)),
        decreases bytes.len() - i,
    {
        proof {
            assert(bytes@.take(i + 1).drop_last() =~= bytes@.take(i as int));
        }
        text::push_hex(&mut s, bytes[i] as u64, 2, true);
        text::push_char(&mut s, ' ');
        proof {
            assert(s@ =~= bytes_line(bytes@.take(i + 1)));
        }
        i = i + 1;
    }
    proof {
        assert(bytes@.take(i as int) =~= bytes@);
    }
    s
}

impl Debugger {
    /// The line shown before each prompt: the thread in brackets, and
    /// the name of the place where it stands, or its address.
    pub fn prompt(&self, thread_id: u32, context: &ThreadContext) -> (line: String)
        requires
            self.wf(),
        ensures
            line@ == prompt_line(thread_id, context.rip, self.process.modules()),
    {
        let mut line = String::new();
        text::push_str(&mut line, "[");
        text::push_hex(&mut line, thread_id as u64, 0, true);
        text::push_str(&mut line, "] ");
        match name_resolution::resolve_address_to_name(context.rip, &self.process) {
            Some(sym) => {
                text::push_str(&mut line, sym.as_str());
            },
            None => {
                text::push_str(&mut line, "0x");
                text::push_hex(&mut line, context.rip, 16, false);
            },
        }
        proof {
            assert(line@ =~= prompt_line(thread_id, context.rip, self.process.modules()));
        }
        line
    }

    /// Formats one frame of a stack walk.
    fn format_frame(&self, frame_number: u32, context: &ThreadContext) -> (line: String)
        requires
            self.wf(),
        ensures
            line@ == frame_line(frame_number, *context, self.process.modules()),
    {
        let mut line = String::new();
        text::push_hex(&mut line, frame_number as u64, 2, true);
        text::push_str(&mut line, " 0x");
        text::push_hex(&mut line, context.rsp, 16, true);
        text::push_str(&mut line, " ");
        match name_resolution::resolve_address_to_name(context.rip, &self.process) {
            Some(sym) => {
                text::push_str(&mut line, sym.as_str());
            },
            None => {
                text::push_str(&mut line, "0x");
                text::push_hex(&mut line, context.rip, 0, true);
            },
        }
        proof {
            assert(line@ =~= frame_line(frame_number, *context, self.process.modules()));
        }
        line
    }

    /// The frames of the stack of the thread whose registers are `context`.
    pub fn stack_walk<M: MemorySource + ?Sized>(&self, context: &ThreadContext, memory_source: &M)
        -> (lines: Vec<String>)
        requires
            self.wf(),
        ensures
            text::views(lines@) == seq![stack_header()] + walk_lines(
                self.process.modules(),
                *context,
                memory_source.view(),
                0,
            ),
    {
        let mut lines: Vec<String> = one(literal(" #   RSP              Call Site"));
        let mut current: ThreadContext = *context;
        let mut frame_number: u32 = 0;
        let ghost modules = self.process.modules();
        let ghost mem = memory_source.view();
        let ghost whole = seq![stack_header()] + walk_lines(modules, *context, mem, 0);
        while frame_number < MAX_FRAMES
            invariant
                self.wf(),
                modules == self.process.modules(),
                mem == memory_source.view(),
                whole == seq![stack_header()] + walk_lines(modules, *context, mem, 0),
                whole == text::views(lines@) + walk_lines(modules, current, mem, frame_number),
            decreases MAX_FRAMES - frame_number,
        {
            let line = self.format_frame(frame_number, &current);
            let ghost before = lines@;
            proof {
                text::lemma_views_push(before, line);
            }
            lines.push(line);
            let unwound = stack::unwind_context(&self.process, current, memory_source);
            proof {
                assert(unwound == stack::caller_context(modules, current, mem));
                assert(walk_lines(modules, current, mem, frame_number) == seq![
                    frame_line(frame_number, current, modules),
                ] + (match unwound {
                    Ok(Some(caller)) => walk_lines(modules, caller, mem, (frame_number + 1) as u32),
                    _ => Seq::empty(),
                }));
            }
            match unwound {
                Ok(Some(unwound_context)) => {
                    proof {
                        assert(text::views(before) + (seq![
                            frame_line(frame_number, current, modules),
                        ] + walk_lines(modules, unwound_context, mem, (frame_number + 1) as u32))
                            =~= text::views(lines@) + walk_lines(
                            modules,
                            unwound_context,
                            mem,
                            (frame_number + 1) as u32,
                        ));
                    }
                    current = unwound_context;
                },
                _ => {
                    proof {
                        assert(text::views(before) + (seq![
                            frame_line(frame_number, current, modules),
                        ] + Seq::<Seq<char>>::empty()) =~= text::views(lines@));
                    }
                    return lines;
                },
            }
            frame_number = frame_number + 1;
        }
        proof {
            assert(text::views(lines@) + Seq::<Seq<char>>::empty() =~= text::views(lines@));
        }
        lines
    }

    /// Carries out a command that shows something about the value of its
    /// operand and changes nothing.
    fn display<M: MemorySource + ?Sized>(
        &self,
        cmd: &CommandExpr,
        expr: &EvalExpr,
        context: &ThreadContext,
        memory_source: &M,
    ) -> (r: CommandOutcome)
        requires
            self.wf(),
            cmd@ is Evaluate || cmd@ is ListNearest || cmd@ is DisplayBytes || cmd@ is ListSource,
        ensures
            effect_of(r) == display_effect(
                cmd@,
                eval::value_of(expr@, self.process.modules(), *context),
                self.process.modules(),
                *context,
                memory_source.view(),
            ),
    {
        let eval_context = eval::EvalContext { process: &self.process, register_context: context };
        let val = match eval::evaluate_expression(expr, &eval_context) {
            Ok(v) => v,
            Err(e) => { return failure(e); },
        };
        match cmd {
            CommandExpr::Evaluate(_, _) => {
                let hex = hex_string(val, 0, true);
                show(one(line2("= 0x", hex.as_str())))
            },
            CommandExpr::ListNearest(_, _) => {
                match name_resolution::resolve_address_to_name(val, &self.process) {
                    Some(sym) => show(one(sym)),
                    None => show(one(literal("No symbol found"))),
                }
            },
            CommandExpr::DisplayBytes(_, _) => {
                let bytes = memory_source.read_raw_memory(val, DISPLAY_BYTES);
                show(one(format_bytes(&bytes)))
            },
            CommandExpr::ListSource(_, _) => {
                match source::resolve_address_to_source_line(val, &self.process) {
                    Ok((file_name, line_number)) => {
                        let number = dec_string(line_number as u64);
                        let line = line3(file_name.as_str(), ":", number.as_str());
                        CommandOutcome {
                            action: CommandAction::Prompt,
                            output: one(line),
                            source: Some(SourceLocation { file: file_name, line: line_number }),
                        }
                    },
                    Err(e) => show(one(line2("Couldn't look up source: ", e.message()))),
                }
            },
            _ => show(none()),
        }
    }

    /// Lists instructions at `va` and remembers where the listing ends.
    fn list_instructions<M: MemorySource + ?Sized>(&mut self, va: u64, memory_source: &M) -> (r:
        CommandOutcome)
        ensures
            final(self).process == old(self).process,
            final(self).breakpoints == old(self).breakpoints,
            final(self).source_search_paths == old(self).source_search_paths,
            final(self).expect_step_exception == old(self).expect_step_exception,
            effect_of(r) == shows(listing_at(memory_source.view(), va).lines),
            final(self).next_unassemble_address == va.wrapping_add(
                listing_at(memory_source.view(), va).end as u64,
            ),
    {
        let listing = unassemble::unassemble(memory_source, va, UNASSEMBLE_LINES);
        self.next_unassemble_address = listing.next_address;
        show(listing.lines)
    }
}

/// What a command changes besides what it shows: nothing but what is
/// named for the command.
pub open spec fn unchanged_but(
    before: Debugger,
    after: Debugger,
    breakpoints: bool,
    paths: bool,
    step: bool,
    listing: bool,
) -> bool {
    &&& after.process == before.process
    &&& breakpoints || after.breakpoints == before.breakpoints
    &&& paths || after.source_search_paths == before.source_search_paths
    &&& step || after.expect_step_exception == before.expect_step_exception
    &&& listing || after.next_unassemble_address == before.next_unassemble_address
}

/// An effect that shows nothing and asks the host program for `action`.
pub open spec fn silent(action: CommandAction) -> Effect {
    Effect { action, output: Seq::empty(), source: None }
}

/// The lines of a listing that starts at the value of an operand.
pub open spec fn listing_effect(value: Result<u64, DebugError>, mem: Map<u64, u8>) -> Effect {
    match value {
        Ok(va) => shows(listing_at(mem, va).lines),
        Err(e) => shows(seq![evaluation_failure(e)]),
    }
}

/// What `bp` shows: nothing, or that no debug register is free.
pub open spec fn breakpoint_effect(
    value: Result<u64, DebugError>,
    before: Seq<breakpoint::Breakpoint>,
) -> Effect {
    match value {
        Ok(_) => if breakpoint::lowest_free(before) < 4 {
            shows(Seq::empty())
        } else {
            shows(seq![DebugError::NoFreeBreakpoint.spec_message()])
        },
        Err(e) => shows(seq![evaluation_failure(e)]),
    }
}

impl Debugger {
    /// Carries out one command of the operator for the thread whose
    /// registers are `context`. Commands that show something leave the
    /// session as it is; `bp` and `bc` change the breakpoints, `srcpath`
    /// the search roots, `u` the place where the next listing starts, and
    /// `t` sets the trap flag in `context` and notes that a single step
    /// is awaited.
    pub fn execute_command<M: MemorySource + ?Sized>(
        &mut self,
        cmd: &CommandExpr,
        context: &mut ThreadContext,
        memory_source: &M,
    ) -> (r: CommandOutcome)
        requires
            old(self).wf(),
        ensures
            final(self).wf(),
            match cmd@ {
                CommandModel::StepInto => {
                    &&& effect_of(r) == silent(CommandAction::Step)
                    &&& *final(context) == (ThreadContext {
                        eflags: old(context).eflags | TRAP_FLAG,
                        ..*old(context)
                    })
                    &&& final(self).expect_step_exception
                    &&& unchanged_but(*old(self), *final(self), false, false, true, false)
                },
                CommandModel::Go => {
                    &&& effect_of(r) == silent(CommandAction::Resume)
                    &&& *final(context) == *old(context)
                    &&& unchanged_but(*old(self), *final(self), false, false, false, false)
                },
                CommandModel::Quit => {
                    &&& effect_of(r) == silent(CommandAction::Quit)
                    &&& *final(context) == *old(context)
                    &&& unchanged_but(*old(self), *final(self), false, false, false, false)
                },
                CommandModel::DisplayRegisters => {
                    &&& effect_of(r) == shows(registers::register_display(*old(context)))
                    &&& *final(context) == *old(context)
                    &&& unchanged_but(*old(self), *final(self), false, false, false, false)
                },
                CommandModel::DisplaySpecificRegister(name) => {
                    &&& effect_of(r) == shows(seq![registers::named_display(*old(context), name)])
                    &&& *final(context) == *old(context)
                    &&& unchanged_but(*old(self), *final(self), false, false, false, false)
                },
                CommandModel::StackWalk => {
                    &&& effect_of(r) == shows(
                        seq![stack_header()] + walk_lines(
                            old(self).process.modules(),
                            *old(context),
                            memory_source.view(),
                            0,
                        ),
                    )
                    &&& *final(context) == *old(context)
                    &&& unchanged_but(*old(self), *final(self), false, false, false, false)
                },
                CommandModel::ListBreakpoints => {
                    &&& effect_of(r) == shows(
                        Seq::new(
                            old(self).breakpoints.breakpoints().len(),
                            |i: int|
                                breakpoint::breakpoint_line(
                                    old(self).breakpoints.breakpoints()[i],
                                    old(self).process.modules(),
                                ),
                        ),
                    )
                    &&& *final(context) == *old(context)
                    &&& unchanged_but(*old(self), *final(self), false, false, false, false)
                },
                CommandModel::Evaluate(e) | CommandModel::ListNearest(e) | CommandModel::DisplayBytes(
                    e,
                ) | CommandModel::ListSource(e) => {
                    &&& effect_of(r) == display_effect(
                        cmd@,
                        eval::value_of(e, old(self).process.modules(), *old(context)),
                        old(self).process.modules(),
                        *old(context),
                        memory_source.view(),
                    )
                    &&& *final(context) == *old(context)
                    &&& unchanged_but(*old(self), *final(self), false, false, false, false)
                },
                CommandModel::Unassemble(e) => {
                    &&& effect_of(r) == listing_effect(
                        eval::value_of(e, old(self).process.modules(), *old(context)),
                        memory_source.view(),
                    )
                    &&& final(self).next_unassemble_address == (match eval::value_of(
                        e,
                        old(self).process.modules(),
                        *old(context),
                    ) {
                        Ok(va) => va.wrapping_add(listing_at(memory_source.view(), va).end as u64),
                        Err(_) => old(self).next_unassemble_address,
                    })
                    &&& *final(context) == *old(context)
                    &&& unchanged_but(*old(self), *final(self), false, false, false, true)
                },
                CommandModel::UnassembleContinue => {
                    &&& effect_of(r) == shows(
                        listing_at(memory_source.view(), old(self).next_unassemble_address).lines,
                    )
                    &&& final(self).next_unassemble_address == old(
                        self,
                    ).next_unassemble_address.wrapping_add(
                        listing_at(memory_source.view(), old(self).next_unassemble_address).end as u64,
                    )
                    &&& *final(context) == *old(context)
                    &&& unchanged_but(*old(self), *final(self), false, false, false, true)
                },
                CommandModel::SrcPath(operand) => {
                    &&& effect_of(r) == silent(CommandAction::Prompt)
                    &&& text::views(final(self).source_search_paths@) == search_roots(operand)
                    &&& *final(context) == *old(context)
                    &&& unchanged_but(*old(self), *final(self), false, true, false, false)
                },
                CommandModel::SetBreakpoint(e) => {
                    &&& effect_of(r) == breakpoint_effect(
                        eval::value_of(e, old(self).process.modules(), *old(context)),
                        old(self).breakpoints.breakpoints(),
                    )
                    &&& match eval::value_of(e, old(self).process.modules(), *old(context)) {
                        Ok(addr) => breakpoint::after_add(
                            old(self).breakpoints.breakpoints(),
                            final(self).breakpoints.breakpoints(),
                            addr,
                        ),
                        Err(_) => final(self).breakpoints == old(self).breakpoints,
                    }
                    &&& *final(context) == *old(context)
                    &&& unchanged_but(*old(self), *final(self), true, false, false, false)
                },
                CommandModel::ClearBreakpoint(e) => {
                    &&& effect_of(r) == (match eval::value_of(
                        e,
                        old(self).process.modules(),
                        *old(context),
                    ) {
                        Ok(_) => shows(Seq::empty()),
                        Err(err) => shows(seq![evaluation_failure(err)]),
                    })
                    &&& match eval::value_of(e, old(self).process.modules(), *old(context)) {
                        Ok(id) => if id <= u32::MAX {
                            breakpoint::after_clear(
                                old(self).breakpoints.breakpoints(),
                                final(self).breakpoints.breakpoints(),
                                id as int,
                            )
                        } else {
                            final(self).breakpoints == old(self).breakpoints
                        },
                        Err(_) => final(self).breakpoints == old(self).breakpoints,
                    }
                    &&& *final(context) == *old(context)
                    &&& unchanged_but(*old(self), *final(self), true, false, false, false)
                },
            },
    {
        match cmd {
            CommandExpr::StepInto(_) => {
                context.eflags = context.eflags | TRAP_FLAG;
                self.expect_step_exception = true;
                CommandOutcome { action: CommandAction::Step, output: none(), source: None }
            },
            CommandExpr::Go(_) => CommandOutcome {
                action: CommandAction::Resume,
                output: none(),
                source: None,
            },
            CommandExpr::Quit(_) => CommandOutcome {
                action: CommandAction::Quit,
                output: none(),
                source: None,
            },
            CommandExpr::DisplayRegisters(_) => {
                let lines = registers::display_all(context);
                proof {
                    assert(text::views(lines@) =~= lines@.map_values(|l: String| l@));
                }
                show(lines)
            },
            CommandExpr::DisplaySpecificRegister(_, reg) => show(
                one(registers::display_named(context, reg.as_str())),
            ),
            CommandExpr::StackWalk(_) => show(self.stack_walk(context, memory_source)),
            CommandExpr::ListBreakpoints(_) => show(self.breakpoints.list_breakpoints(&self.process)),
            CommandExpr::DisplayBytes(_, expr) => self.display(cmd, expr, context, memory_source),
            CommandExpr::Evaluate(_, expr) => self.display(cmd, expr, context, memory_source),
            CommandExpr::ListNearest(_, expr) => self.display(cmd, expr, context, memory_source),
            CommandExpr::ListSource(_, expr) => self.display(cmd, expr, context, memory_source),
            CommandExpr::Unassemble(_, expr) => {
                let eval_context = eval::EvalContext {
                    process: &self.process,
                    register_context: context,
                };
                match eval::evaluate_expression(expr, &eval_context) {
                    Ok(addr) => self.list_instructions(addr, memory_source),
                    Err(e) => failure(e),
                }
            },
            CommandExpr::UnassembleContinue(_) => {
                let va = self.next_unassemble_address;
                self.list_instructions(va, memory_source)
            },
            CommandExpr::SrcPath(_, path) => {
                self.source_search_paths = split_search_paths(path.as_str());
                CommandOutcome { action: CommandAction::Prompt, output: none(), source: None }
            },
            CommandExpr::SetBreakpoint(_, expr) => {
                let eval_context = eval::EvalContext {
                    process: &self.process,
                    register_context: context,
                };
                match eval::evaluate_expression(expr, &eval_context) {
                    Ok(addr) => match self.breakpoints.add_breakpoint(addr) {
                        Ok(_) => show(none()),
                        Err(e) => show(one(literal(e.message()))),
                    },
                    Err(e) => failure(e),
                }
            },
            CommandExpr::ClearBreakpoint(_, expr) => {
                let eval_context = eval::EvalContext {
                    process: &self.process,
                    register_context: context,
                };
                match eval::evaluate_expression(expr, &eval_context) {
                    Ok(id) => {
                        if id <= 0xffff_ffff {
                            self.breakpoints.clear_breakpoint(id as u32);
                        }
                        show(none())
                    },
                    Err(e) => failure(e),
                }
            },
        }
    }

    /// Installs the breakpoints in the context of the thread `thread_id`
    /// before the target resumes; `event_thread_id` is the thread that
    /// reported the event and resumes at the instruction it stands on.
    pub fn before_resume(&self, thread_id: u32, event_thread_id: u32, context: &mut ThreadContext)
        requires
            self.wf(),
        ensures
            *final(context) == breakpoint::programmed(
                *old(context),
                self.breakpoints.breakpoints(),
                thread_id == event_thread_id,
            ),
    {
        self.breakpoints.apply_breakpoints(context, thread_id == event_thread_id);
    }
}

} // verus!
