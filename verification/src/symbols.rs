//! What the debugger keeps of a module's symbol file: plain tables, filled
//! by the host program when it opens the file.

use vstd::prelude::*;

verus! {

/// A PUBLIC record of the global symbol table.
#[derive(Debug, PartialEq, Eq)]
pub struct PublicSymbol {
    pub name: String,
    /// Whether the record is marked as a function.
    pub function: bool,
    /// The address of the symbol relative to the image base, where the
    /// symbol file's address map has one for it.
    pub rva: Option<u32>,
}

/// A PROCEDURE record of one of the symbol file's modules.
#[derive(Debug, PartialEq, Eq)]
pub struct ProcedureSymbol {
    pub name: String,
    /// The address of the procedure relative to the image base, where the
    /// symbol file's address map has one for it.
    pub rva: Option<u32>,
}

/// One entry of a line program: the code at `rva .. rva + length` comes
/// from the lines `line_start ..= line_end` of `file`.
#[derive(Debug, PartialEq, Eq)]
pub struct LineRecord {
    pub file: String,
    pub line_start: u32,
    pub line_end: u32,
    pub rva: Option<u32>,
    pub length: Option<u32>,
}

/// The line program of one compilation unit, with the files it names.
#[derive(Debug, PartialEq, Eq)]
pub struct CompilationUnit {
    pub files: Vec<String>,
    pub lines: Vec<LineRecord>,
}

/// The records of one symbol file, each list in the order of the file.
#[derive(Debug, PartialEq, Eq)]
pub struct SymbolTable {
    pub publics: Vec<PublicSymbol>,
    pub procedures: Vec<ProcedureSymbol>,
    pub units: Vec<CompilationUnit>,
}

impl SymbolTable {
    /// A table without records.
    pub fn new() -> (t: SymbolTable)
        ensures
            t.publics@.len() == 0,
            t.procedures@.len() == 0,
            t.units@.len() == 0,
    {
        SymbolTable { publics: Vec::new(), procedures: Vec::new(), units: Vec::new() }
    }
}

} // verus!
