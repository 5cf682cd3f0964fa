use dbgrs::error::{DebugError, ErrorKind};

#[test]
fn every_error_has_its_kind_and_message() {
    let all = [
        (DebugError::UnknownRegister, ErrorKind::Input, "Unrecognized register"),
        (DebugError::UnqualifiedSymbol, ErrorKind::Input, "Symbols must be qualified as module!name"),
        (DebugError::UnknownModule, ErrorKind::Input, "Could not find module"),
        (DebugError::UnknownSymbol, ErrorKind::Input, "Could not find symbol in module"),
        (DebugError::ArithmeticOverflow, ErrorKind::Input, "Sum does not fit in 64 bits"),
        (DebugError::EmptyCommandLine, ErrorKind::Input, "Command line was empty"),
        (DebugError::NoArguments, ErrorKind::Input, "No arguments found"),
        (DebugError::ReadFailed, ErrorKind::TargetRead, "Could not read all items"),
        (DebugError::ReadTooLarge, ErrorKind::TargetRead, "Read request too large"),
        (DebugError::AddressOutOfRange, ErrorKind::Format, "Address outside the address space"),
        (
            DebugError::UnsupportedMachine,
            ErrorKind::Format,
            "Unsupported machine architecture for module",
        ),
        (DebugError::OrdinalOutOfRange, ErrorKind::Format, "Export ordinals out of range"),
        (DebugError::DebugRecordTooShort, ErrorKind::Format, "CodeView record too short"),
        (DebugError::ModuleOverlap, ErrorKind::Format, "Module overlaps a loaded module"),
        (DebugError::ChainedUnwindInfo, ErrorKind::Format, "NYI: Chained info"),
        (DebugError::FrameRegisterUnsupported, ErrorKind::Format, "NYI frame_register_offset"),
        (DebugError::AllocLargeIncomplete, ErrorKind::Format, "UWOP_ALLOC_LARGE was incomplete"),
        (DebugError::SaveNonvolIncomplete, ErrorKind::Format, "UWOP_SAVE_NONVOL was incomplete"),
        (
            DebugError::SaveNonvolFarIncomplete,
            ErrorKind::Format,
            "UWOP_SAVE_NONVOL_FAR was incomplete",
        ),
        (DebugError::SaveXmm128Incomplete, ErrorKind::Format, "UWOP_SAVE_XMM128 was incomplete"),
        (
            DebugError::SaveXmm128FarIncomplete,
            ErrorKind::Format,
            "UWOP_SAVE_XMM128_FAR was incomplete",
        ),
        (DebugError::UnrecognizedUnwindOp, ErrorKind::Format, "Unrecognized unwind op"),
        (DebugError::NoFreeBreakpoint, ErrorKind::Resource, "Too many breakpoints!"),
        (DebugError::ModuleNotFound, ErrorKind::Resource, "Module not found"),
        (DebugError::SymbolsUnavailable, ErrorKind::Resource, "Symbols not available"),
        (DebugError::AddressNotFound, ErrorKind::Resource, "Address not found"),
        (DebugError::SourceLineNotFound, ErrorKind::Resource, "Source line not found"),
        (DebugError::FileNotFound, ErrorKind::Resource, "File not found"),
        (DebugError::UnexpectedDebugEvent, ErrorKind::Os, "Unexpected debug event"),
    ];
    for (error, kind, message) in all {
        assert_eq!(error.kind(), kind);
        assert_eq!(error.message(), message);
    }
}
