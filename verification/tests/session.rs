use dbgrs::breakpoint::Breakpoint;
use dbgrs::command::{parse_command, CommandExpr, EvalExpr};
use dbgrs::error::DebugError;
use dbgrs::eval::{evaluate_expression, EvalContext};
use dbgrs::event::{DebugEvent, EventContext};
use dbgrs::process::Process;
use dbgrs::registers::ThreadContext;
use dbgrs::session::{
    source_excerpt, split_search_paths, CommandAction, CommandOutcome, ContinueStatus, Debugger,
    EventOutcome, SourceLocation,
};
use dbgrs::snapshot::MemorySnapshot;
use dbgrs::stack::unwind_context;
use dbgrs::symbols::{CompilationUnit, LineRecord, SymbolTable};

const BASE: u64 = 0x0000_0001_4000_0000;
const STACK: u64 = 0x0000_0000_0009_0000;

fn put_u16(image: &mut Vec<u8>, at: usize, v: u16) {
    image[at..at + 2].copy_from_slice(&v.to_le_bytes());
}

fn put_u32(image: &mut Vec<u8>, at: usize, v: u32) {
    image[at..at + 4].copy_from_slice(&v.to_le_bytes());
}

fn put_str(image: &mut Vec<u8>, at: usize, s: &str) {
    image[at..at + s.len()].copy_from_slice(s.as_bytes());
    image[at + s.len()] = 0;
}

/// The image `hello`: `main` at 0x1000 with the prolog `push rbp; sub
/// rsp, 30h`, listed in the exception directory; `child` at 0x2000, a
/// leaf; `start` at 0x3000. The code is filled with `nop`.
fn hello_image() -> Vec<u8> {
    let mut image = vec![0u8; 0x4000];
    put_u32(&mut image, 0x3c, 0x80);
    put_u16(&mut image, 0x84, 0x8664);
    put_u32(&mut image, 0x80 + 80, 0x4000);
    // exports
    put_u32(&mut image, 0x80 + 136, 0x400);
    put_u32(&mut image, 0x80 + 140, 0x100);
    put_u32(&mut image, 0x400 + 16, 1);
    put_u32(&mut image, 0x400 + 20, 3);
    put_u32(&mut image, 0x400 + 24, 3);
    put_u32(&mut image, 0x400 + 28, 0x500);
    put_u32(&mut image, 0x400 + 32, 0x520);
    put_u32(&mut image, 0x400 + 36, 0x540);
    for (i, (name, rva)) in [("main", 0x1000u32), ("child", 0x2000), ("start", 0x3000)]
        .iter()
        .enumerate()
    {
        put_u32(&mut image, 0x500 + 4 * i, *rva);
        put_u32(&mut image, 0x520 + 4 * i, 0x560 + 0x10 * i as u32);
        put_u16(&mut image, 0x540 + 2 * i, i as u16);
        put_str(&mut image, 0x560 + 0x10 * i, name);
    }
    // exception directory: one function
    put_u32(&mut image, 0x80 + 136 + 8 * 3, 0x600);
    put_u32(&mut image, 0x80 + 136 + 8 * 3 + 4, 12);
    put_u32(&mut image, 0x600, 0x1000);
    put_u32(&mut image, 0x604, 0x1100);
    put_u32(&mut image, 0x608, 0x700);
    // unwind info: version 1, prolog of 5 bytes, 2 codes
    image[0x700] = 1;
    image[0x701] = 5;
    image[0x702] = 2;
    image[0x703] = 0;
    put_u16(&mut image, 0x704, 0x5205);
    put_u16(&mut image, 0x706, 0x5001);
    for b in image[0x1000..0x4000].iter_mut() {
        *b = 0x90;
    }
    image[0x1000] = 0x55;
    image[0x1001..0x1005].copy_from_slice(&[0x48, 0x83, 0xec, 0x30]);
    image
}

/// The stack while `child` runs, called from `main` at `main+0x20`:
/// `main` was entered with the stack pointer `STACK + 0x100`.
fn target() -> MemorySnapshot {
    let mut memory = MemorySnapshot::new();
    memory.add_region(BASE, hello_image());
    let mut stack = vec![0u8; 0x200];
    let entry = 0x100usize;
    // return address of `main`: none, the stack ends here
    stack[entry..entry + 8].copy_from_slice(&0u64.to_le_bytes());
    stack[entry - 8..entry].copy_from_slice(&0x0000_0000_0bad_cafeu64.to_le_bytes());
    stack[entry - 0x40..entry - 0x38].copy_from_slice(&(BASE + 0x1020).to_le_bytes());
    memory.add_region(STACK, stack);
    memory
}

fn in_child() -> ThreadContext {
    let mut c = ThreadContext::zeroed();
    c.rip = BASE + 0x2004;
    c.rsp = STACK + 0x100 - 0x40;
    c.rbp = 0x1234;
    c
}

fn session() -> (Debugger, MemorySnapshot) {
    let memory = target();
    let mut debugger = Debugger::new();
    let outcome = debugger.handle_event(
        &EventContext { process_id: 1, thread_id: 0x2a },
        DebugEvent::CreateProcess { exe_name: Some("hello".to_string()), exe_base: BASE },
        &ThreadContext::zeroed(),
        &memory,
    );
    assert_eq!(outcome.output, vec!["LoadDll: 140000000   hello".to_string()]);
    (debugger, memory)
}

fn run(debugger: &mut Debugger, line: &str, context: &mut ThreadContext, memory: &MemorySnapshot)
    -> CommandOutcome {
    let command = parse_command(line).unwrap();
    debugger.execute_command(&command, context, memory)
}

fn lines(v: &[&str]) -> Vec<String> {
    v.iter().map(|s| s.to_string()).collect()
}

#[test]
fn process_creation_loads_the_image_and_lists_the_thread() {
    let (debugger, _) = session();
    assert_eq!(debugger.process.iterate_threads(), &vec![0x2a]);
    assert_eq!(debugger.process.get_containing_module(BASE + 0x10).unwrap().name, "hello");
    assert!(!debugger.expect_step_exception);
}

#[test]
fn launch_stops_at_the_entry_breakpoint() {
    // First the process creation, then the breakpoint exception of the entry; `r rip`, `g`, exit.
    let (mut debugger, memory) = session();
    let mut context = ThreadContext::zeroed();
    context.rip = BASE + 0x3000;
    context.rsp = STACK + 0x100;
    let stop = debugger.handle_event(
        &EventContext { process_id: 1, thread_id: 0x2a },
        DebugEvent::Exception { first_chance: true, exception_code: 0x80000003u32 as i32 },
        &context,
        &memory,
    );
    assert_eq!(
        stop,
        EventOutcome {
            continue_status: ContinueStatus::ExceptionNotHandled,
            is_exit: false,
            output: lines(&["Exception code 80000003 (first chance)"]),
        }
    );
    assert_eq!(debugger.prompt(0x2a, &context), "[2A] hello!start");
    let shown = run(&mut debugger, "r rip", &mut context, &memory);
    assert_eq!(shown.output, lines(&["rip=0x0000000140003000"]));
    assert_eq!(shown.action, CommandAction::Prompt);
    let go = run(&mut debugger, "g", &mut context, &memory);
    assert_eq!(go, CommandOutcome { action: CommandAction::Resume, output: vec![], source: None });
    let exit = debugger.handle_event(
        &EventContext { process_id: 1, thread_id: 0x2a },
        DebugEvent::ExitProcess,
        &context,
        &memory,
    );
    assert_eq!(
        exit,
        EventOutcome {
            continue_status: ContinueStatus::Continue,
            is_exit: true,
            output: lines(&["ExitProcess"]),
        }
    );
}

#[test]
fn breakpoint_on_an_export_is_hit_listed_and_cleared() {
    let (mut debugger, memory) = session();
    let mut context = ThreadContext::zeroed();
    context.rip = BASE + 0x3000;
    assert_eq!(run(&mut debugger, "bp hello!main", &mut context, &memory).output, lines(&[]));
    assert_eq!(run(&mut debugger, "g", &mut context, &memory).action, CommandAction::Resume);
    debugger.before_resume(0x2a, 0x2a, &mut context);
    assert_eq!(context.dr0, 0x0000_0001_4000_1000);
    assert_eq!(context.dr7 & 1, 1);
    assert_eq!(context.eflags & 0x1_0000, 0x1_0000);
    // The target runs into the breakpoint.
    context.rip = 0x0000_0001_4000_1000;
    context.dr6 = 1;
    let hit = debugger.handle_event(
        &EventContext { process_id: 1, thread_id: 0x2a },
        DebugEvent::Exception { first_chance: true, exception_code: 0x80000004u32 as i32 },
        &context,
        &memory,
    );
    assert_eq!(
        hit,
        EventOutcome {
            continue_status: ContinueStatus::Continue,
            is_exit: false,
            output: lines(&["Breakpoint 0 hit"]),
        }
    );
    assert_eq!(
        run(&mut debugger, "bl", &mut context, &memory).output,
        lines(&["0 0x0000000140001000 (hello!main)"])
    );
    assert_eq!(run(&mut debugger, "bc 0", &mut context, &memory).output, lines(&[]));
    assert_eq!(run(&mut debugger, "bl", &mut context, &memory).output, lines(&[]));
    assert!(debugger.breakpoints.list().is_empty());
    assert_eq!(run(&mut debugger, "g", &mut context, &memory).action, CommandAction::Resume);
    let mut other = ThreadContext::zeroed();
    other.dr7 = 1;
    debugger.before_resume(0x30, 0x2a, &mut other);
    assert_eq!(other.dr7, 0);
    assert_eq!(other.eflags, 0);
}

#[test]
fn listing_goes_on_where_the_last_one_ended() {
    let (mut debugger, memory) = session();
    let mut context = ThreadContext::zeroed();
    context.rip = BASE + 0x1000;
    let first = run(&mut debugger, "u @rip", &mut context, &memory);
    assert_eq!(first.output.len(), 16);
    assert_eq!(first.output[0], "0000000140001000 55                   push      rbp");
    assert_eq!(first.output[1], "0000000140001001 4883EC30             sub       rsp,30h");
    assert_eq!(first.output[2], "0000000140001005 90                   nop");
    assert_eq!(first.output[15], "0000000140001012 90                   nop");
    assert_eq!(debugger.next_unassemble_address, BASE + 0x1013);
    let second = run(&mut debugger, "u", &mut context, &memory);
    assert_eq!(second.output.len(), 16);
    assert_eq!(second.output[0], "0000000140001013 90                   nop");
    assert_eq!(second.output[15], "0000000140001022 90                   nop");
    assert_eq!(debugger.next_unassemble_address, BASE + 0x1023);
}

#[test]
fn listing_starts_at_the_instruction_pointer_after_each_event() {
    let (mut debugger, memory) = session();
    let mut context = ThreadContext::zeroed();
    context.rip = BASE + 0x2000;
    debugger.handle_event(
        &EventContext { process_id: 1, thread_id: 0x2a },
        DebugEvent::Other("x".to_string()),
        &context,
        &memory,
    );
    assert_eq!(debugger.next_unassemble_address, BASE + 0x2000);
    let listing = run(&mut debugger, "u", &mut context, &memory);
    assert_eq!(listing.output[0], "0000000140002000 90                   nop");
}

#[test]
fn listing_of_unreadable_memory_is_empty() {
    let (mut debugger, memory) = session();
    let mut context = ThreadContext::zeroed();
    let listing = run(&mut debugger, "u 0x10", &mut context, &memory);
    assert_eq!(listing.output, lines(&[]));
    assert_eq!(debugger.next_unassemble_address, 0x10);
    // Near the end of the image only what is there is listed.
    let tail = run(&mut debugger, "u hello!start + 0xffe", &mut context, &memory);
    assert_eq!(tail.output.len(), 2);
    assert_eq!(debugger.next_unassemble_address, BASE + 0x4000);
}

#[test]
fn stack_walk_shows_child_and_parent() {
    let (mut debugger, memory) = session();
    let mut context = in_child();
    let walk = run(&mut debugger, "k", &mut context, &memory);
    assert_eq!(
        walk.output,
        lines(&[
            " #   RSP              Call Site",
            "00 0x00000000000900C0 hello!child+0x4",
            "01 0x00000000000900C8 hello!main+0x20",
        ])
    );
    assert_eq!(walk.action, CommandAction::Prompt);
    assert_eq!(context, in_child());
}

#[test]
fn unwinding_the_child_and_the_parent() {
    let (debugger, memory) = session();
    let child = in_child();
    let parent = unwind_context(&debugger.process, child, &memory).unwrap().unwrap();
    // The leaf frame pops its return address.
    assert_eq!(parent.rip, BASE + 0x1020);
    assert_eq!(parent.rsp, child.rsp + 8);
    assert_eq!(parent.rbp, 0x1234);
    // The return address of the parent is zero: the stack ends there.
    assert_eq!(unwind_context(&debugger.process, parent, &memory), Ok(None));
    // With a return address, the caller's stack pointer lies 0x38 + 8 above.
    let mut with_caller = MemorySnapshot::new();
    let mut stack = vec![0u8; 0x200];
    stack[0x100..0x108].copy_from_slice(&(BASE + 0x3005).to_le_bytes());
    stack[0xf8..0x100].copy_from_slice(&0x0bad_cafeu64.to_le_bytes());
    with_caller.add_region(STACK, stack);
    with_caller.add_region(BASE, hello_image());
    let caller = unwind_context(&debugger.process, parent, &with_caller).unwrap().unwrap();
    assert_eq!(caller.rip, BASE + 0x3005);
    assert_eq!(caller.rsp, parent.rsp + 0x38 + 8);
    assert_eq!(caller.rbp, 0x0bad_cafe);
}

#[test]
fn unwinding_inside_the_prolog() {
    let (debugger, memory) = session();
    let mut context = ThreadContext::zeroed();
    // Before the push: the return address is at the top of the stack.
    context.rip = BASE + 0x1000;
    context.rsp = STACK + 0x100 - 0x40;
    context.rbp = 0x77;
    let caller = unwind_context(&debugger.process, context, &memory).unwrap().unwrap();
    assert_eq!((caller.rip, caller.rsp, caller.rbp), (BASE + 0x1020, context.rsp + 8, 0x77));
    // After the push, before the allocation.
    context.rip = BASE + 0x1001;
    context.rsp = STACK + 0x100 - 0x48;
    let caller = unwind_context(&debugger.process, context, &memory).unwrap().unwrap();
    assert_eq!((caller.rip, caller.rsp, caller.rbp), (BASE + 0x1020, STACK + 0x100 - 0x38, 0));
}

#[test]
fn unwinding_outside_every_module_ends_the_stack() {
    let (debugger, memory) = session();
    let mut context = ThreadContext::zeroed();
    context.rip = 0x1000;
    context.rsp = STACK;
    assert_eq!(unwind_context(&debugger.process, context, &memory), Ok(None));
}

#[test]
fn unwinding_with_unreadable_stack_fails() {
    let (debugger, memory) = session();
    let mut context = in_child();
    context.rsp = 0x10;
    assert_eq!(unwind_context(&debugger.process, context, &memory), Err(DebugError::ReadFailed));
    let mut walker = debugger;
    let walk = run(&mut walker, "k", &mut context, &memory);
    assert_eq!(
        walk.output,
        lines(&[" #   RSP              Call Site", "00 0x0000000000000010 hello!child+0x4"])
    );
}

fn chained_or_framed(flags: u8, frame: u8) -> Result<Option<ThreadContext>, DebugError> {
    let mut image = hello_image();
    image[0x700] = 1 | flags << 3;
    image[0x703] = frame;
    let mut memory = MemorySnapshot::new();
    memory.add_region(BASE, image);
    memory.add_region(STACK, vec![0u8; 0x200]);
    let mut process = Process::new();
    process.add_module(BASE, None, &memory).unwrap();
    let mut context = ThreadContext::zeroed();
    context.rip = BASE + 0x1010;
    context.rsp = STACK;
    unwind_context(&process, context, &memory)
}

#[test]
fn unsupported_unwind_information_is_refused() {
    assert_eq!(chained_or_framed(4, 0), Err(DebugError::ChainedUnwindInfo));
    assert_eq!(chained_or_framed(5, 0), Err(DebugError::ChainedUnwindInfo));
    assert_eq!(chained_or_framed(0, 0x25), Err(DebugError::FrameRegisterUnsupported));
    // Handler flags alone are fine; the zero return address ends the stack.
    assert_eq!(chained_or_framed(3, 0), Ok(None));
}

#[test]
fn evaluation_of_expressions() {
    let (debugger, _) = session();
    let mut registers = ThreadContext::zeroed();
    registers.rip = BASE + 0x2004;
    registers.rax = 5;
    registers.r15 = u64::MAX;
    let context = EvalContext { process: &debugger.process, register_context: &registers };
    let eval = |text: &str| match parse_command(&format!("? {}", text)).unwrap() {
        CommandExpr::Evaluate(_, e) => evaluate_expression(&e, &context),
        _ => unreachable!(),
    };
    assert_eq!(eval("0x10 + 0x20"), Ok(0x30));
    assert_eq!(eval("@rip"), Ok(BASE + 0x2004));
    assert_eq!(eval("@RIP"), Ok(BASE + 0x2004));
    assert_eq!(eval("hello!main"), Ok(0x0000_0001_4000_1000));
    assert_eq!(eval("hello!child + @rax + 1"), Ok(BASE + 0x2006));
    assert_eq!(eval("7"), Ok(7));
    assert_eq!(eval("@nothing"), Err(DebugError::UnknownRegister));
    assert_eq!(eval("@"), Err(DebugError::UnknownRegister));
    assert_eq!(eval("hello!nothing"), Err(DebugError::UnknownSymbol));
    assert_eq!(eval("other!main"), Err(DebugError::UnknownModule));
    assert_eq!(eval("main"), Err(DebugError::UnqualifiedSymbol));
    assert_eq!(eval("@r15 + 1"), Err(DebugError::ArithmeticOverflow));
    assert_eq!(eval("@r15 + 0"), Ok(u64::MAX));
    // Of two failing operands the left one speaks.
    assert_eq!(eval("main + @nothing"), Err(DebugError::UnqualifiedSymbol));
    assert_eq!(
        evaluate_expression(&EvalExpr::Symbol("".to_string()), &context),
        Err(DebugError::UnqualifiedSymbol)
    );
}

#[test]
fn commands_that_show_values() {
    let (mut debugger, memory) = session();
    let mut context = in_child();
    assert_eq!(
        run(&mut debugger, "? hello!main + 0x10", &mut context, &memory).output,
        lines(&["= 0x140001010"])
    );
    assert_eq!(run(&mut debugger, "? 0", &mut context, &memory).output, lines(&["= 0x0"]));
    assert_eq!(
        run(&mut debugger, "ln @rip", &mut context, &memory).output,
        lines(&["hello!child+0x4"])
    );
    assert_eq!(
        run(&mut debugger, "ln 0x10", &mut context, &memory).output,
        lines(&["No symbol found"])
    );
    assert_eq!(
        run(&mut debugger, "db hello!main", &mut context, &memory).output,
        lines(&["55 48 83 EC 30 90 90 90 90 90 90 90 90 90 90 90 "])
    );
    assert_eq!(
        run(&mut debugger, "db hello!start + 0xffc", &mut context, &memory).output,
        lines(&["90 90 90 90 "])
    );
    assert_eq!(run(&mut debugger, "db 0x10", &mut context, &memory).output, lines(&[""]));
    assert_eq!(
        run(&mut debugger, "? @bogus", &mut context, &memory).output,
        lines(&["Could not evaluate expression: Unrecognized register"])
    );
    assert_eq!(
        run(&mut debugger, "db nomod!x", &mut context, &memory).output,
        lines(&["Could not evaluate expression: Could not find module"])
    );
    assert_eq!(run(&mut debugger, "r", &mut context, &memory).output.len(), 6);
    assert_eq!(
        run(&mut debugger, "r xyz", &mut context, &memory).output,
        lines(&["Unrecognized register name: xyz"])
    );
}

#[test]
fn step_sets_the_trap_flag_and_swallows_the_step_exception() {
    let (mut debugger, memory) = session();
    let mut context = in_child();
    context.eflags = 0x202;
    let step = run(&mut debugger, "t", &mut context, &memory);
    assert_eq!(step, CommandOutcome { action: CommandAction::Step, output: vec![], source: None });
    assert_eq!(context.eflags, 0x302);
    assert!(debugger.expect_step_exception);
    let event = |debugger: &mut Debugger, code: u32, context: &ThreadContext| {
        debugger.handle_event(
            &EventContext { process_id: 1, thread_id: 0x2a },
            DebugEvent::Exception { first_chance: false, exception_code: code as i32 },
            context,
            &memory,
        )
    };
    // Another exception comes first: it is the target's, and the step is still awaited.
    let other = event(&mut debugger, 0xc0000005, &context);
    assert_eq!(other.continue_status, ContinueStatus::ExceptionNotHandled);
    assert_eq!(other.output, lines(&["Exception code c0000005 (second chance)"]));
    assert!(debugger.expect_step_exception);
    let stepped = event(&mut debugger, 0x80000004, &context);
    assert_eq!(stepped.continue_status, ContinueStatus::Continue);
    assert_eq!(stepped.output, lines(&[]));
    assert!(!debugger.expect_step_exception);
    // A single step that nobody asked for goes back to the target.
    let stray = event(&mut debugger, 0x80000004, &context);
    assert_eq!(stray.continue_status, ContinueStatus::ExceptionNotHandled);
    assert_eq!(stray.output, lines(&["Exception code 80000004 (second chance)"]));
}

#[test]
fn fifth_breakpoint_fails_and_four_stay() {
    let (mut debugger, memory) = session();
    let mut context = in_child();
    for text in ["bp hello!main", "bp hello!child", "bp hello!start", "bp 0x1234"] {
        assert_eq!(run(&mut debugger, text, &mut context, &memory).output, lines(&[]));
    }
    let fifth = run(&mut debugger, "bp hello!main + 1", &mut context, &memory);
    assert_eq!(fifth.output, lines(&["Too many breakpoints!"]));
    assert_eq!(fifth.action, CommandAction::Prompt);
    assert_eq!(
        run(&mut debugger, "bl", &mut context, &memory).output,
        lines(&[
            "0 0x0000000140001000 (hello!main)",
            "1 0x0000000140002000 (hello!child)",
            "2 0x0000000140003000 (hello!start)",
            "3 0x0000000000001234",
        ])
    );
    assert_eq!(
        debugger.breakpoints.list(),
        &vec![
            Breakpoint { addr: BASE + 0x1000, id: 0 },
            Breakpoint { addr: BASE + 0x2000, id: 1 },
            Breakpoint { addr: BASE + 0x3000, id: 2 },
            Breakpoint { addr: 0x1234, id: 3 },
        ]
    );
    // Clearing makes room again; ids above 32 bits clear nothing.
    run(&mut debugger, "bc 0x100000001", &mut context, &memory);
    assert_eq!(debugger.breakpoints.list().len(), 4);
    run(&mut debugger, "bc 1", &mut context, &memory);
    assert_eq!(run(&mut debugger, "bp 0x99", &mut context, &memory).output, lines(&[]));
    assert_eq!(debugger.breakpoints.list()[1], Breakpoint { addr: 0x99, id: 1 });
    assert_eq!(
        run(&mut debugger, "bp nomod!f", &mut context, &memory).output,
        lines(&["Could not evaluate expression: Could not find module"])
    );
}

fn with_lines(debugger: &mut Debugger) {
    let table = SymbolTable {
        publics: vec![],
        procedures: vec![],
        units: vec![CompilationUnit {
            files: vec!["c:\\src\\hello.c".to_string()],
            lines: vec![LineRecord {
                file: "c:\\src\\hello.c".to_string(),
                line_start: 4,
                line_end: 4,
                rva: Some(0x2000),
                length: Some(0x10),
            }],
        }],
    };
    assert!(debugger.process.set_module_symbols(BASE, table));
}

#[test]
fn source_line_of_the_instruction_pointer() {
    let (mut debugger, memory) = session();
    let mut context = in_child();
    assert_eq!(
        run(&mut debugger, "lsa @rip", &mut context, &memory).output,
        lines(&["Couldn't look up source: Symbols not available"])
    );
    with_lines(&mut debugger);
    let shown = run(&mut debugger, "lsa @rip", &mut context, &memory);
    assert_eq!(shown.output, lines(&["c:\\src\\hello.c:4"]));
    assert_eq!(
        shown.source,
        Some(SourceLocation { file: "c:\\src\\hello.c".to_string(), line: 4 })
    );
    let missing = run(&mut debugger, "lsa hello!main", &mut context, &memory);
    assert_eq!(missing.output, lines(&["Couldn't look up source: Address not found"]));
    assert_eq!(missing.source, None);
    let file = lines(&["#include <x>", "", "int main() {", "    child();", "    return 0;", "}", ""]);
    assert_eq!(
        source_excerpt(&file, 4),
        lines(&["    2: ", "    3: int main() {", ">   4:     child();", "    5:     return 0;", "    6: }"])
    );
}

#[test]
fn excerpts_at_the_edges_of_a_file() {
    let file = lines(&["a", "b", "c", "d"]);
    assert_eq!(source_excerpt(&file, 1), lines(&[">   1: a", "    2: b", "    3: c"]));
    assert_eq!(source_excerpt(&file, 2), lines(&["    1: a", ">   2: b", "    3: c", "    4: d"]));
    assert_eq!(source_excerpt(&file, 4), lines(&["    2: b", "    3: c", ">   4: d"]));
    assert_eq!(source_excerpt(&file, 6), lines(&["    4: d"]));
    assert_eq!(source_excerpt(&file, 7), lines(&[]));
    assert_eq!(source_excerpt(&file, 0), lines(&["    1: a", "    2: b"]));
    assert_eq!(source_excerpt(&file, u32::MAX), lines(&[]));
    assert_eq!(source_excerpt(&lines(&[]), 1), lines(&[]));
    let long: Vec<String> = (1..=12000).map(|i| format!("l{}", i)).collect();
    assert_eq!(
        source_excerpt(&long, 10000),
        lines(&[" 9998: l9998", " 9999: l9999", ">10000: l10000", "10001: l10001", "10002: l10002"])
    );
}

#[test]
fn search_paths_are_split_at_semicolons() {
    assert_eq!(split_search_paths("c:\\src;d:\\x y"), lines(&["c:\\src", "d:\\x y"]));
    assert_eq!(split_search_paths("one"), lines(&["one"]));
    assert_eq!(split_search_paths(""), lines(&[""]));
    assert_eq!(split_search_paths("a;;b;"), lines(&["a", "", "b", ""]));
    let (mut debugger, memory) = session();
    let mut context = in_child();
    let set = run(&mut debugger, "srcpath /x/y;/z", &mut context, &memory);
    assert_eq!(set, CommandOutcome { action: CommandAction::Prompt, output: vec![], source: None });
    assert_eq!(debugger.source_search_paths, lines(&["/x/y", "/z"]));
    run(&mut debugger, "srcpath /only", &mut context, &memory);
    assert_eq!(debugger.source_search_paths, lines(&["/only"]));
}

#[test]
fn thread_and_library_events() {
    let (mut debugger, mut memory) = session();
    let context = ThreadContext::zeroed();
    let at = EventContext { process_id: 1, thread_id: 0x2a };
    let created =
        debugger.handle_event(&at, DebugEvent::CreateThread { thread_id: 0x1f4 }, &context, &memory);
    assert_eq!(created.output, lines(&["Thread created: 1f4"]));
    assert_eq!(debugger.process.iterate_threads(), &vec![0x2a, 0x1f4]);
    let exited =
        debugger.handle_event(&at, DebugEvent::ExitThread { thread_id: 0x2a }, &context, &memory);
    assert_eq!(exited.output, lines(&["Thread exited: 2a"]));
    assert_eq!(debugger.process.iterate_threads(), &vec![0x1f4]);
    let said = debugger.handle_event(
        &at,
        DebugEvent::OutputDebugString("hi there".to_string()),
        &context,
        &memory,
    );
    assert_eq!(said.output, lines(&["DebugOut: hi there"]));
    assert_eq!(said.continue_status, ContinueStatus::Continue);
    let other =
        debugger.handle_event(&at, DebugEvent::Other("UnloadDll".to_string()), &context, &memory);
    assert_eq!(other.output, lines(&["UnloadDll"]));
    // A library that cannot be read is reported and the session goes on.
    let failed = debugger.handle_event(
        &at,
        DebugEvent::LoadModule { module_name: Some("gone.dll".to_string()), module_base: 0x7000_0000 },
        &context,
        &memory,
    );
    assert_eq!(failed.output, lines(&["Could not load module at 70000000: Could not read all items"]));
    assert_eq!(failed.continue_status, ContinueStatus::Continue);
    assert!(!failed.is_exit);
    memory.add_region(0x7000_0000, hello_image());
    let loaded = debugger.handle_event(
        &at,
        DebugEvent::LoadModule { module_name: None, module_base: 0x7000_0000 },
        &context,
        &memory,
    );
    assert_eq!(loaded.output, lines(&["LoadDll: 70000000   module_70000000"]));
    assert_eq!(debugger.process.get_containing_module(0x7000_0010).unwrap().name, "module_70000000");
    let again = debugger.handle_event(
        &at,
        DebugEvent::LoadModule { module_name: None, module_base: 0x7000_0000 },
        &context,
        &memory,
    );
    assert_eq!(
        again.output,
        lines(&["Could not load module at 70000000: Module overlaps a loaded module"])
    );
}

#[test]
fn prompt_shows_thread_and_place() {
    let (debugger, _) = session();
    let mut context = in_child();
    assert_eq!(debugger.prompt(0x2a, &context), "[2A] hello!child+0x4");
    context.rip = 0x1234;
    assert_eq!(debugger.prompt(0xabc, &context), "[ABC] 0x0000000000001234");
}

#[test]
fn quit_ends_the_session() {
    let (mut debugger, memory) = session();
    let mut context = in_child();
    assert_eq!(
        run(&mut debugger, "q", &mut context, &memory),
        CommandOutcome { action: CommandAction::Quit, output: vec![], source: None }
    );
}
