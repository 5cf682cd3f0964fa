//! Debug events as the debugger sees them.

use vstd::prelude::*;
use crate::error::DebugError;
use crate::memory;
use crate::memory::MemorySource;
use crate::text;

verus! {

/// What happened in the target.
#[derive(Debug, PartialEq, Eq)]
pub enum DebugEvent {
    Exception { first_chance: bool, exception_code: i32 },
    CreateProcess { exe_name: Option<String>, exe_base: u64 },
    CreateThread { thread_id: u32 },
    ExitThread { thread_id: u32 },
    LoadModule { module_name: Option<String>, module_base: u64 },
    OutputDebugString(String),
    ExitProcess,
    Other(String),
}

/// The process and thread that an event came from.
#[derive(Clone, Copy, Debug, PartialEq, Eq, Structural)]
pub struct EventContext {
    pub process_id: u32,
    pub thread_id: u32,
}

/// A debug event as a value of the specification.
pub enum EventModel {
    Exception { first_chance: bool, exception_code: i32 },
    CreateProcess { exe_name: Option<Seq<char>>, exe_base: u64 },
    CreateThread { thread_id: u32 },
    ExitThread { thread_id: u32 },
    LoadModule { module_name: Option<Seq<char>>, module_base: u64 },
    OutputDebugString(Seq<char>),
    ExitProcess,
    Other(Seq<char>),
}

/// The view of an optional string.
pub open spec fn name_view(s: Option<String>) -> Option<Seq<char>> {
    match s {
        Some(n) => Some(n@),
        None => None,
    }
}

impl View for DebugEvent {
    type V = EventModel;

    open spec fn view(&self) -> EventModel {
        match self {
            DebugEvent::Exception { first_chance, exception_code } => EventModel::Exception {
                first_chance: *first_chance,
                exception_code: *exception_code,
            },
            DebugEvent::CreateProcess { exe_name, exe_base } => EventModel::CreateProcess {
                exe_name: name_view(*exe_name),
                exe_base: *exe_base,
            },
            DebugEvent::CreateThread { thread_id } => EventModel::CreateThread {
                thread_id: *thread_id,
            },
            DebugEvent::ExitThread { thread_id } => EventModel::ExitThread { thread_id: *thread_id },
            DebugEvent::LoadModule { module_name, module_base } => EventModel::LoadModule {
                module_name: name_view(*module_name),
                module_base: *module_base,
            },
            DebugEvent::OutputDebugString(s) => EventModel::OutputDebugString(s@),
            DebugEvent::ExitProcess => EventModel::ExitProcess,
            DebugEvent::Other(s) => EventModel::Other(s@),
        }
    }
}

/// The event codes of the operating system.
pub const EXCEPTION_DEBUG_EVENT: u32 = 1;

pub const CREATE_THREAD_DEBUG_EVENT: u32 = 2;

pub const CREATE_PROCESS_DEBUG_EVENT: u32 = 3;

pub const EXIT_THREAD_DEBUG_EVENT: u32 = 4;

pub const EXIT_PROCESS_DEBUG_EVENT: u32 = 5;

pub const LOAD_DLL_DEBUG_EVENT: u32 = 6;

pub const UNLOAD_DLL_DEBUG_EVENT: u32 = 7;

pub const OUTPUT_DEBUG_STRING_EVENT: u32 = 8;

pub const RIP_EVENT: u32 = 9;

/// The longest module name read from the target, in characters.
pub const MAX_MODULE_NAME: usize = 260;

/// What the operating system reported of one debug event, copied out of
/// its event record. Fields that the kind of event does not use are zero.
#[derive(Debug, PartialEq, Eq)]
pub struct RawDebugEvent {
    pub code: u32,
    pub process_id: u32,
    pub thread_id: u32,
    /// Exception: the exception code, and whether this is the first chance.
    pub exception_code: i32,
    pub first_chance: u32,
    /// Process creation and library load: where the image lies.
    pub image_base: u64,
    /// Process creation: the path of the image file, where the system knows it.
    pub image_path: Option<String>,
    /// Library load: where in the target the address of the image's name
    /// is stored, or zero.
    pub image_name_address: u64,
    /// Library load and debug output: whether the string is in 16-bit units.
    pub unicode: bool,
    /// Debug output: where the string lies in the target, and its length.
    pub debug_string_address: u64,
    pub debug_string_length: u16,
}

/// The last part of a path, after its last `\` or `/`; nothing if the
/// path ends there.
pub open spec fn file_name_of(path: Seq<char>) -> Option<Seq<char>> {
    let back = text::last_index(path, '\\');
    let forward = text::last_index(path, '/');
    let cut = if back > forward {
        back + 1
    } else {
        forward + 1
    };
    if cut >= path.len() {
        None
    } else {
        Some(path.skip(cut))
    }
}

/// The name of a loaded library, read through the pointer that the
/// system reported; nothing where there is no pointer or the target
/// cannot be read there.
pub open spec fn library_name_at(mem: Map<u64, u8>, address: u64, unicode: bool) -> Option<
    Seq<char>,
> {
    if address == 0 {
        None
    } else {
        match memory::string_indirect_at(mem, address as int, MAX_MODULE_NAME as nat, unicode) {
            Ok(s) => Some(s),
            Err(_) => None,
        }
    }
}

/// The event that a report of the operating system stands for.
pub open spec fn event_of(raw: RawDebugEvent, mem: Map<u64, u8>) -> Result<EventModel, DebugError> {
    if raw.code == EXCEPTION_DEBUG_EVENT {
        Ok(
            EventModel::Exception {
                first_chance: raw.first_chance != 0,
                exception_code: raw.exception_code,
            },
        )
    } else if raw.code == CREATE_THREAD_DEBUG_EVENT {
        Ok(EventModel::CreateThread { thread_id: raw.thread_id })
    } else if raw.code == CREATE_PROCESS_DEBUG_EVENT {
        Ok(
            EventModel::CreateProcess {
                exe_name: match raw.image_path {
                    Some(p) => file_name_of(p@),
                    None => None,
                },
                exe_base: raw.image_base,
            },
        )
    } else if raw.code == EXIT_THREAD_DEBUG_EVENT {
        Ok(EventModel::ExitThread { thread_id: raw.thread_id })
    } else if raw.code == EXIT_PROCESS_DEBUG_EVENT {
        Ok(EventModel::ExitProcess)
    } else if raw.code == LOAD_DLL_DEBUG_EVENT {
        Ok(
            EventModel::LoadModule {
                module_name: library_name_at(mem, raw.image_name_address, raw.unicode),
                module_base: raw.image_base,
            },
        )
    } else if raw.code == UNLOAD_DLL_DEBUG_EVENT {
        Ok(EventModel::Other("UnloadDll"@))
    } else if raw.code == OUTPUT_DEBUG_STRING_EVENT {
        Ok(
            EventModel::OutputDebugString(
                memory::string_at(
                    mem,
                    raw.debug_string_address as int,
                    raw.debug_string_length as nat,
                    raw.unicode,
                ),
            ),
        )
    } else if raw.code == RIP_EVENT {
        Ok(EventModel::Other("RipEvent"@))
    } else {
        Err(DebugError::UnexpectedDebugEvent)
    }
}

/// The last part of a path.
pub fn file_name(path: &str) -> (r: Option<String>)
    ensures
        name_view(r) == file_name_of(path@),
{
    let chars = text::chars_of(path);
    let back = text::find_last(&chars, '\\');
    let forward = text::find_last(&chars, '/');
    let cut: usize = match (back, forward) {
        (Some(b), Some(f)) => if b > f {
            b + 1
        } else {
            f + 1
        },
        (Some(b), None) => b + 1,
        (None, Some(f)) => f + 1,
        (None, None) => 0,
    };
    if cut >= chars.len() {
        None
    } else {
        let name = text::string_of(&chars, cut, chars.len());
        proof {
            assert(chars@.subrange(cut as int, chars.len() as int) =~= path@.skip(cut as int));
        }
        Some(name)
    }
}

/// Turns a report of the operating system into an event: names the kind
/// of event, and reads from the target the strings that the report only
/// points to.
pub fn decode_debug_event<M: MemorySource + ?Sized>(raw: &RawDebugEvent, mem_source: &M) -> (r:
    Result<(EventContext, DebugEvent), DebugError>)
    ensures
        match event_of(*raw, mem_source.view()) {
            Ok(event) => r is Ok && r->Ok_0.1@ == event && r->Ok_0.0 == (EventContext {
                process_id: raw.process_id,
                thread_id: raw.thread_id,
            }),
            Err(e) => r is Err && r->Err_0 == e,
        },
{
    let ctx = EventContext { process_id: raw.process_id, thread_id: raw.thread_id };
    let event = if raw.code == EXCEPTION_DEBUG_EVENT {
        DebugEvent::Exception {
            first_chance: raw.first_chance != 0,
            exception_code: raw.exception_code,
        }
    } else if raw.code == CREATE_THREAD_DEBUG_EVENT {
        DebugEvent::CreateThread { thread_id: raw.thread_id }
    } else if raw.code == CREATE_PROCESS_DEBUG_EVENT {
        let exe_name = match &raw.image_path {
            Some(p) => file_name(p.as_str()),
            None => None,
        };
        DebugEvent::CreateProcess { exe_name, exe_base: raw.image_base }
    } else if raw.code == EXIT_THREAD_DEBUG_EVENT {
        DebugEvent::ExitThread { thread_id: raw.thread_id }
    } else if raw.code == EXIT_PROCESS_DEBUG_EVENT {
        DebugEvent::ExitProcess
    } else if raw.code == LOAD_DLL_DEBUG_EVENT {
        let module_name = if raw.image_name_address == 0 {
            None
        } else {
            match memory::read_memory_string_indirect(
                mem_source,
                raw.image_name_address,
                MAX_MODULE_NAME,
                raw.unicode,
            ) {
                Ok(s) => Some(s),
                Err(_) => None,
            }
        };
        DebugEvent::LoadModule { module_name, module_base: raw.image_base }
    } else if raw.code == UNLOAD_DLL_DEBUG_EVENT {
        let mut s = String::new();
        text::push_str(&mut s, "UnloadDll");
        assert(s@ =~= "UnloadDll"@);
        DebugEvent::Other(s)
    } else if raw.code == OUTPUT_DEBUG_STRING_EVENT {
        match memory::read_memory_string(
            mem_source,
            raw.debug_string_address,
            raw.debug_string_length as usize,
            raw.unicode,
        ) {
            Ok(s) => DebugEvent::OutputDebugString(s),
            Err(e) => { return Err(e); },
        }
    } else if raw.code == RIP_EVENT {
        let mut s = String::new();
        text::push_str(&mut s, "RipEvent");
        assert(s@ =~= "RipEvent"@);
        DebugEvent::Other(s)
    } else {
        return Err(DebugError::UnexpectedDebugEvent);
    };
    Ok((ctx, event))
}

} // verus!
