use dbgrs::cmdline::parse_command_line;
use dbgrs::error::{DebugError, ErrorKind};
use dbgrs::event::{decode_debug_event, file_name, DebugEvent, EventContext, RawDebugEvent};
use dbgrs::snapshot::MemorySnapshot;

fn raw(code: u32) -> RawDebugEvent {
    RawDebugEvent {
        code,
        process_id: 100,
        thread_id: 200,
        exception_code: 0,
        first_chance: 0,
        image_base: 0,
        image_path: None,
        image_name_address: 0,
        unicode: false,
        debug_string_address: 0,
        debug_string_length: 0,
    }
}

fn memory() -> MemorySnapshot {
    let mut m = MemorySnapshot::new();
    m.add_region(0x1000, 0x2000u64.to_le_bytes().to_vec());
    m.add_region(0x2000, b"C:\\lib\\thing.dll\0".to_vec());
    m.add_region(0x3000, vec![b'o', 0, b'k', 0, b'!', 0, 0, 0]);
    m.add_region(0x4000, 0x3000u64.to_le_bytes().to_vec());
    m
}

fn decode(r: &RawDebugEvent) -> DebugEvent {
    let (context, event) = decode_debug_event(r, &memory()).unwrap();
    assert_eq!(context, EventContext { process_id: 100, thread_id: 200 });
    event
}

#[test]
fn exceptions_carry_code_and_chance() {
    let mut r = raw(1);
    r.exception_code = -2147483645;
    r.first_chance = 1;
    assert_eq!(
        decode(&r),
        DebugEvent::Exception { first_chance: true, exception_code: -2147483645 }
    );
    r.first_chance = 0;
    assert_eq!(
        decode(&r),
        DebugEvent::Exception { first_chance: false, exception_code: -2147483645 }
    );
    r.first_chance = 7;
    assert!(matches!(decode(&r), DebugEvent::Exception { first_chance: true, .. }));
}

#[test]
fn thread_and_process_events() {
    assert_eq!(decode(&raw(2)), DebugEvent::CreateThread { thread_id: 200 });
    assert_eq!(decode(&raw(4)), DebugEvent::ExitThread { thread_id: 200 });
    assert_eq!(decode(&raw(5)), DebugEvent::ExitProcess);
    assert_eq!(decode(&raw(7)), DebugEvent::Other("UnloadDll".to_string()));
    assert_eq!(decode(&raw(9)), DebugEvent::Other("RipEvent".to_string()));
}

#[test]
fn process_creation_names_the_image_by_its_file() {
    let mut r = raw(3);
    r.image_base = 0x1_4000_0000;
    r.image_path = Some("\\\\?\\C:\\git\\HelloWorld\\hello.exe".to_string());
    assert_eq!(
        decode(&r),
        DebugEvent::CreateProcess { exe_name: Some("hello.exe".to_string()), exe_base: 0x1_4000_0000 }
    );
    r.image_path = None;
    assert_eq!(decode(&r), DebugEvent::CreateProcess { exe_name: None, exe_base: 0x1_4000_0000 });
    r.image_path = Some("C:\\dir\\".to_string());
    assert_eq!(decode(&r), DebugEvent::CreateProcess { exe_name: None, exe_base: 0x1_4000_0000 });
}

#[test]
fn library_names_are_read_through_the_pointer() {
    let mut r = raw(6);
    r.image_base = 0x7ff8_0000_0000;
    r.image_name_address = 0x1000;
    assert_eq!(
        decode(&r),
        DebugEvent::LoadModule {
            module_name: Some("C:\\lib\\thing.dll".to_string()),
            module_base: 0x7ff8_0000_0000,
        }
    );
    r.image_name_address = 0x4000;
    r.unicode = true;
    assert_eq!(
        decode(&r),
        DebugEvent::LoadModule { module_name: Some("ok!".to_string()), module_base: 0x7ff8_0000_0000 }
    );
    // No pointer, or a pointer that cannot be read: no name.
    r.image_name_address = 0;
    assert_eq!(
        decode(&r),
        DebugEvent::LoadModule { module_name: None, module_base: 0x7ff8_0000_0000 }
    );
    r.image_name_address = 0x9000;
    assert_eq!(
        decode(&r),
        DebugEvent::LoadModule { module_name: None, module_base: 0x7ff8_0000_0000 }
    );
}

#[test]
fn debug_output_is_read_from_the_target() {
    let mut r = raw(8);
    r.debug_string_address = 0x2000;
    r.debug_string_length = 6;
    assert_eq!(decode(&r), DebugEvent::OutputDebugString("C:\\lib".to_string()));
    r.debug_string_address = 0x3000;
    r.debug_string_length = 4;
    r.unicode = true;
    assert_eq!(decode(&r), DebugEvent::OutputDebugString("ok!".to_string()));
    r.debug_string_address = 0x9000;
    assert_eq!(decode(&r), DebugEvent::OutputDebugString("".to_string()));
}

#[test]
fn unknown_event_codes_are_errors() {
    for code in [0u32, 10, 0xffff_ffff] {
        let e = decode_debug_event(&raw(code), &memory()).unwrap_err();
        assert_eq!(e, DebugError::UnexpectedDebugEvent);
        assert_eq!(e.kind(), ErrorKind::Os);
    }
}

#[test]
fn file_names() {
    assert_eq!(file_name("C:\\a\\b.exe"), Some("b.exe".to_string()));
    assert_eq!(file_name("/usr/bin/tool"), Some("tool".to_string()));
    assert_eq!(file_name("a\\b/c"), Some("c".to_string()));
    assert_eq!(file_name("a/b\\c"), Some("c".to_string()));
    assert_eq!(file_name("plain"), Some("plain".to_string()));
    assert_eq!(file_name("dir\\"), None);
    assert_eq!(file_name(""), None);
}

fn wide(s: &str) -> Vec<u16> {
    let mut v: Vec<u16> = s.encode_utf16().collect();
    v.push(0);
    v
}

#[test]
fn command_line_without_the_debugger() {
    assert_eq!(parse_command_line(&wide("dbg.exe hello.exe arg")), Ok(wide("hello.exe arg")));
    assert_eq!(
        parse_command_line(&wide("\"C:\\my tools\\dbg.exe\"   \"a b.exe\" x  y")),
        Ok(wide("\"a b.exe\" x  y"))
    );
    assert_eq!(parse_command_line(&wide("dbg ")), Ok(wide("")));
    assert_eq!(parse_command_line(&wide("d  \"q\"")), Ok(wide("\"q\"")));
}

#[test]
fn command_line_without_arguments() {
    assert_eq!(parse_command_line(&wide("dbg.exe")), Err(DebugError::NoArguments));
    assert_eq!(parse_command_line(&wide("\"unclosed dbg.exe")), Err(DebugError::NoArguments));
    assert_eq!(parse_command_line(&wide("")), Err(DebugError::NoArguments));
    assert_eq!(parse_command_line(&[]), Err(DebugError::EmptyCommandLine));
    assert_eq!(DebugError::EmptyCommandLine.kind(), ErrorKind::Input);
    assert_eq!(DebugError::NoArguments.message(), "No arguments found");
}
