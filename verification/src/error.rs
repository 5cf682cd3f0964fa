//! Failures the debugger core reports, grouped by kind.

use vstd::prelude::*;

verus! {

/// The five families of failure. Input and resource errors are shown to the
/// operator and the session goes on; read and format errors fail one module
/// or one command; OS errors end the session.
#[derive(Clone, Copy, Debug, PartialEq, Eq, Structural)]
pub enum ErrorKind {
    Input,
    TargetRead,
    Format,
    Resource,
    Os,
}

/// What can go wrong in the debugger core.
#[derive(Clone, Copy, Debug, PartialEq, Eq, Structural)]
pub enum DebugError {
    /// `@name` does not name a register.
    UnknownRegister,
    /// A symbol without a `module!` qualifier.
    UnqualifiedSymbol,
    /// No loaded module answers to the module part of a symbol.
    UnknownModule,
    /// The module has neither an export nor a procedure of that name.
    UnknownSymbol,
    /// A sum of two operands does not fit in 64 bits.
    ArithmeticOverflow,
    /// The command line holds no first token.
    EmptyCommandLine,
    /// The command line ends inside or right after its first token.
    NoArguments,
    /// The target refused a read of a structure that is needed.
    ReadFailed,
    /// A request asks for more bytes than the machine can address.
    ReadTooLarge,
    /// An address computed from image fields leaves the 64-bit address space.
    AddressOutOfRange,
    /// The image is not built for x86-64.
    UnsupportedMachine,
    /// Export ordinals run past 32 bits.
    OrdinalOutOfRange,
    /// A CodeView record shorter than its fixed header.
    DebugRecordTooShort,
    /// The new module's address range meets that of a loaded module.
    ModuleOverlap,
    /// UNWIND_INFO chains to another entry.
    ChainedUnwindInfo,
    /// UNWIND_INFO establishes a frame register.
    FrameRegisterUnsupported,
    AllocLargeIncomplete,
    SaveNonvolIncomplete,
    SaveNonvolFarIncomplete,
    SaveXmm128Incomplete,
    SaveXmm128FarIncomplete,
    UnrecognizedUnwindOp,
    /// All four debug registers are taken.
    NoFreeBreakpoint,
    /// No module contains the address.
    ModuleNotFound,
    /// The module has no symbol file attached.
    SymbolsUnavailable,
    /// No line record covers the address.
    AddressNotFound,
    /// No line record of the file covers the line.
    SourceLineNotFound,
    /// No candidate path exists.
    FileNotFound,
    /// The debug event code is none of the nine the OS documents.
    UnexpectedDebugEvent,
}

impl DebugError {
    /// The family that the error belongs to.
    pub open spec fn spec_kind(self) -> ErrorKind {
        match self {
            DebugError::UnknownRegister
            | DebugError::UnqualifiedSymbol
            | DebugError::UnknownModule
            | DebugError::UnknownSymbol
            | DebugError::ArithmeticOverflow
            | DebugError::EmptyCommandLine
            | DebugError::NoArguments => ErrorKind::Input,
            DebugError::ReadFailed | DebugError::ReadTooLarge => ErrorKind::TargetRead,
            DebugError::AddressOutOfRange
            | DebugError::UnsupportedMachine
            | DebugError::OrdinalOutOfRange
            | DebugError::DebugRecordTooShort
            | DebugError::ModuleOverlap
            | DebugError::ChainedUnwindInfo
            | DebugError::FrameRegisterUnsupported
            | DebugError::AllocLargeIncomplete
            | DebugError::SaveNonvolIncomplete
            | DebugError::SaveNonvolFarIncomplete
            | DebugError::SaveXmm128Incomplete
            | DebugError::SaveXmm128FarIncomplete
            | DebugError::UnrecognizedUnwindOp => ErrorKind::Format,
            DebugError::NoFreeBreakpoint
            | DebugError::ModuleNotFound
            | DebugError::SymbolsUnavailable
            | DebugError::AddressNotFound
            | DebugError::SourceLineNotFound
            | DebugError::FileNotFound => ErrorKind::Resource,
            DebugError::UnexpectedDebugEvent => ErrorKind::Os,
        }
    }

    /// The family that the error belongs to.
    #[verifier::when_used_as_spec(spec_kind)]
    pub fn kind(self) -> (k: ErrorKind)
        ensures
            k == self.spec_kind(),
    {
        match self {
            DebugError::UnknownRegister
            | DebugError::UnqualifiedSymbol
            | DebugError::UnknownModule
            | DebugError::UnknownSymbol
            | DebugError::ArithmeticOverflow
            | DebugError::EmptyCommandLine
            | DebugError::NoArguments => ErrorKind::Input,
            DebugError::ReadFailed | DebugError::ReadTooLarge => ErrorKind::TargetRead,
            DebugError::AddressOutOfRange
            | DebugError::UnsupportedMachine
            | DebugError::OrdinalOutOfRange
            | DebugError::DebugRecordTooShort
            | DebugError::ModuleOverlap
            | DebugError::ChainedUnwindInfo
            | DebugError::FrameRegisterUnsupported
            | DebugError::AllocLargeIncomplete
            | DebugError::SaveNonvolIncomplete
            | DebugError::SaveNonvolFarIncomplete
            | DebugError::SaveXmm128Incomplete
            | DebugError::SaveXmm128FarIncomplete
            | DebugError::UnrecognizedUnwindOp => ErrorKind::Format,
            DebugError::NoFreeBreakpoint
            | DebugError::ModuleNotFound
            | DebugError::SymbolsUnavailable
            | DebugError::AddressNotFound
            | DebugError::SourceLineNotFound
            | DebugError::FileNotFound => ErrorKind::Resource,
            DebugError::UnexpectedDebugEvent => ErrorKind::Os,
        }
    }

    /// The text shown to the operator, as a value of the specification.
    pub open spec fn spec_message(self) -> Seq<char> {
        match self {
            DebugError::UnknownRegister => "Unrecognized register"@,
            DebugError::UnqualifiedSymbol => "Symbols must be qualified as module!name"@,
            DebugError::UnknownModule => "Could not find module"@,
            DebugError::UnknownSymbol => "Could not find symbol in module"@,
            DebugError::ArithmeticOverflow => "Sum does not fit in 64 bits"@,
            DebugError::EmptyCommandLine => "Command line was empty"@,
            DebugError::NoArguments => "No arguments found"@,
            DebugError::ReadFailed => "Could not read all items"@,
            DebugError::ReadTooLarge => "Read request too large"@,
            DebugError::AddressOutOfRange => "Address outside the address space"@,
            DebugError::UnsupportedMachine => "Unsupported machine architecture for module"@,
            DebugError::OrdinalOutOfRange => "Export ordinals out of range"@,
            DebugError::DebugRecordTooShort => "CodeView record too short"@,
            DebugError::ModuleOverlap => "Module overlaps a loaded module"@,
            DebugError::ChainedUnwindInfo => "NYI: Chained info"@,
            DebugError::FrameRegisterUnsupported => "NYI frame_register_offset"@,
            DebugError::AllocLargeIncomplete => "UWOP_ALLOC_LARGE was incomplete"@,
            DebugError::SaveNonvolIncomplete => "UWOP_SAVE_NONVOL was incomplete"@,
            DebugError::SaveNonvolFarIncomplete => "UWOP_SAVE_NONVOL_FAR was incomplete"@,
            DebugError::SaveXmm128Incomplete => "UWOP_SAVE_XMM128 was incomplete"@,
            DebugError::SaveXmm128FarIncomplete => "UWOP_SAVE_XMM128_FAR was incomplete"@,
            DebugError::UnrecognizedUnwindOp => "Unrecognized unwind op"@,
            DebugError::NoFreeBreakpoint => "Too many breakpoints!"@,
            DebugError::ModuleNotFound => "Module not found"@,
            DebugError::SymbolsUnavailable => "Symbols not available"@,
            DebugError::AddressNotFound => "Address not found"@,
            DebugError::SourceLineNotFound => "Source line not found"@,
            DebugError::FileNotFound => "File not found"@,
            DebugError::UnexpectedDebugEvent => "Unexpected debug event"@,
        }
    }

    /// The text shown to the operator.
    pub fn message(self) -> (s: &'static str)
        ensures
            s@ == self.spec_message(),
    {
        match self {
            DebugError::UnknownRegister => "Unrecognized register",
            DebugError::UnqualifiedSymbol => "Symbols must be qualified as module!name",
            DebugError::UnknownModule => "Could not find module",
            DebugError::UnknownSymbol => "Could not find symbol in module",
            DebugError::ArithmeticOverflow => "Sum does not fit in 64 bits",
            DebugError::EmptyCommandLine => "Command line was empty",
            DebugError::NoArguments => "No arguments found",
            DebugError::ReadFailed => "Could not read all items",
            DebugError::ReadTooLarge => "Read request too large",
            DebugError::AddressOutOfRange => "Address outside the address space",
            DebugError::UnsupportedMachine => "Unsupported machine architecture for module",
            DebugError::OrdinalOutOfRange => "Export ordinals out of range",
            DebugError::DebugRecordTooShort => "CodeView record too short",
            DebugError::ModuleOverlap => "Module overlaps a loaded module",
            DebugError::ChainedUnwindInfo => "NYI: Chained info",
            DebugError::FrameRegisterUnsupported => "NYI frame_register_offset",
            DebugError::AllocLargeIncomplete => "UWOP_ALLOC_LARGE was incomplete",
            DebugError::SaveNonvolIncomplete => "UWOP_SAVE_NONVOL was incomplete",
            DebugError::SaveNonvolFarIncomplete => "UWOP_SAVE_NONVOL_FAR was incomplete",
            DebugError::SaveXmm128Incomplete => "UWOP_SAVE_XMM128 was incomplete",
            DebugError::SaveXmm128FarIncomplete => "UWOP_SAVE_XMM128_FAR was incomplete",
            DebugError::UnrecognizedUnwindOp => "Unrecognized unwind op",
            DebugError::NoFreeBreakpoint => "Too many breakpoints!",
            DebugError::ModuleNotFound => "Module not found",
            DebugError::SymbolsUnavailable => "Symbols not available",
            DebugError::AddressNotFound => "Address not found",
            DebugError::SourceLineNotFound => "Source line not found",
            DebugError::FileNotFound => "File not found",
            DebugError::UnexpectedDebugEvent => "Unexpected debug event",
        }
    }
}

} // verus!
