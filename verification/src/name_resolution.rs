//! From addresses to names and back, through export tables and symbol files.

use vstd::prelude::*;
use crate::error::DebugError;
use crate::module::{Export, ExportTarget, Module};
use crate::module;
use crate::process;
use crate::process::Process;
use crate::symbols::{ProcedureSymbol, PublicSymbol};
use crate::text;

verus! {

/// The best symbol found so far for an address.
#[derive(Clone, Copy, Debug, PartialEq, Eq, Structural)]
pub enum AddressMatch {
    NoMatch,
    /// The export with this index, which lies at this offset from the image base.
    Export(usize, u64),
    /// The public symbol with this index, which lies at this offset from the image base.
    Public(usize, u64),
}

impl AddressMatch {
    /// Whether nothing was found.
    pub open spec fn spec_is_none(&self) -> bool {
        *self == AddressMatch::NoMatch
    }

    /// Whether nothing was found.
    #[verifier::when_used_as_spec(spec_is_none)]
    pub fn is_none(&self) -> (r: bool)
        ensures
            r == self.spec_is_none(),
    {
        match self {
            AddressMatch::NoMatch => true,
            _ => false,
        }
    }

    /// The offset from the image base of the symbol found.
    pub open spec fn rva(self) -> u64 {
        match self {
            AddressMatch::NoMatch => 0,
            AddressMatch::Export(_, r) => r,
            AddressMatch::Public(_, r) => r,
        }
    }
}

/// The best match among the first `n` exports for the offset `query`: the
/// export that leads to the highest offset at or below `query`, and of
/// several at that offset the first. Forwarders do not count.
pub open spec fn closest_export(exports: Seq<Export>, query: u64, n: int) -> AddressMatch
    decreases n,
{
    if n <= 0 {
        AddressMatch::NoMatch
    } else {
        let prev = closest_export(exports, query, n - 1);
        match exports[n - 1].target {
            ExportTarget::RVA(rva) => if rva <= query && (prev.spec_is_none() || prev.rva() < rva) {
                AddressMatch::Export((n - 1) as usize, rva)
            } else {
                prev
            },
            ExportTarget::Forwarder(_) => prev,
        }
    }
}

/// The offset of a public symbol; a symbol that the address map does not
/// place counts as lying at the image base.
pub open spec fn public_rva(symbol: PublicSymbol) -> u64 {
    match symbol.rva {
        Some(rva) => rva as u64,
        None => 0,
    }
}

/// The best match once the first `n` public symbols are looked at too,
/// starting from `start`: a public function at or below `query` wins over
/// what was found at the same or a lower offset.
pub open spec fn closest_public(
    start: AddressMatch,
    publics: Seq<PublicSymbol>,
    query: u64,
    n: int,
) -> AddressMatch
    decreases n,
{
    if n <= 0 {
        start
    } else {
        let prev = closest_public(start, publics, query, n - 1);
        let symbol = publics[n - 1];
        if symbol.function && public_rva(symbol) <= query && (prev.spec_is_none() || prev.rva()
            <= public_rva(symbol)) {
            AddressMatch::Public((n - 1) as usize, public_rva(symbol))
        } else {
            prev
        }
    }
}

/// The best match for the offset `query` in a module.
pub open spec fn closest_symbol(m: Module, query: u64) -> AddressMatch {
    let from_exports = closest_export(m.exports@, query, m.exports@.len() as int);
    match m.symbols {
        Some(table) => closest_public(
            from_exports,
            table.publics@,
            query,
            table.publics@.len() as int,
        ),
        None => from_exports,
    }
}

/// `module!symbol`, and `+0x` with the offset in capital hexadecimal
/// digits where the offset is not zero.
pub open spec fn symbol_text(module_name: Seq<char>, symbol: Seq<char>, offset: u64) -> Seq<char> {
    if offset == 0 {
        module_name + seq!['!'] + symbol
    } else {
        module_name + seq!['!'] + symbol + seq!['+', '0', 'x'] + text::hex_digits(
            offset as nat,
            true,
        )
    }
}

/// The name of an address in a module that holds it.
pub open spec fn name_in_module(m: Module, address: u64) -> Option<Seq<char>> {
    let query = (address - m.address) as u64;
    match closest_symbol(m, query) {
        AddressMatch::NoMatch => None,
        AddressMatch::Export(i, rva) => Some(
            symbol_text(m.name@, module::export_label(m.exports@[i as int]@), (query - rva) as u64),
        ),
        AddressMatch::Public(i, rva) => Some(
            symbol_text(m.name@, m.symbols->Some_0.publics@[i as int].name@, (query - rva) as u64),
        ),
    }
}

/// The name of an address: that of the nearest symbol at or below it in
/// the module that holds it.
pub open spec fn name_of_address(modules: Seq<Module>, address: u64) -> Option<Seq<char>> {
    match process::containing_module(modules, address) {
        Some(m) => name_in_module(m, address),
        None => None,
    }
}

/// The best match for the offset `query` in a module.
fn find_closest(m: &Module, query: u64) -> (r: AddressMatch)
    ensures
        r == closest_symbol(*m, query),
        match r {
            AddressMatch::NoMatch => true,
            AddressMatch::Export(i, rva) => i < m.exports@.len() && rva <= query,
            AddressMatch::Public(i, rva) => m.symbols is Some && i
                < m.symbols->Some_0.publics@.len() && rva <= query,
        },
{
    let mut closest = AddressMatch::NoMatch;
    let mut closest_addr: u64 = 0;
    let mut i: usize = 0;
    while i < m.exports.len()
        invariant
            i <= m.exports.len(),
            closest == closest_export(m.exports@, query, i as int),
            closest_addr == closest.rva(),
            match closest {
                AddressMatch::NoMatch => true,
                AddressMatch::Export(k, rva) => k < m.exports@.len() && rva <= query,
                AddressMatch::Public(k, rva) => false,
            },
        decreases m.exports.len() - i,
    {
        match &m.exports[i].target {
            ExportTarget::RVA(export_addr) => {
                if *export_addr <= query {
                    if closest.is_none() || closest_addr < *export_addr {
                        closest = AddressMatch::Export(i, *export_addr);
                        closest_addr = *export_addr;
                    }
                }
            },
            ExportTarget::Forwarder(_) => {},
        }
        i = i + 1;
    }
    match &m.symbols {
        Some(table) => {
            let ghost start = closest;
            let mut k: usize = 0;
            while k < table.publics.len()
                invariant
                    k <= table.publics.len(),
                    m.symbols == Some(*table),
                    closest == closest_public(start, table.publics@, query, k as int),
                    closest_addr == closest.rva(),
                    match closest {
                        AddressMatch::NoMatch => true,
                        AddressMatch::Export(j, rva) => j < m.exports@.len() && rva <= query,
                        AddressMatch::Public(j, rva) => j < table.publics@.len() && rva <= query,
                    },
                decreases table.publics.len() - k,
            {
                let symbol = &table.publics[k];
                if symbol.function {
                    let rva: u64 = match symbol.rva {
                        Some(r) => r as u64,
                        None => 0,
                    };
                    if rva <= query && (closest.is_none() || closest_addr <= rva) {
                        closest = AddressMatch::Public(k, rva);
                        closest_addr = rva;
                    }
                }
                k = k + 1;
            }
        },
        None => {},
    }
    closest
}

/// Formats `module!symbol` with the offset where it is not zero.
fn symbol_with_offset(module_name: &String, symbol: &str, offset: u64) -> (s: String)
    ensures
        s@ == symbol_text(module_name@, symbol@, offset),
{
    let mut s = String::new();
    text::push_str(&mut s, module_name.as_str());
    text::push_char(&mut s, '!');
    text::push_str(&mut s, symbol);
    if offset != 0 {
        text::push_char(&mut s, '+');
        text::push_char(&mut s, '0');
        text::push_char(&mut s, 'x');
        text::push_hex(&mut s, offset, 0, true);
    }
    proof {
        assert(s@ =~= symbol_text(module_name@, symbol@, offset));
    }
    s
}

/// Names an address: `module!symbol` for the nearest symbol at or below
/// it in the module that holds it, with `+0x` and the distance where the
/// address lies past the symbol. Exports and the public functions of the
/// symbol file are looked at; of two at one address the public function
/// wins. Nothing is returned for an address outside every module or
/// below every symbol of its module.
pub fn resolve_address_to_name(address: u64, process: &Process) -> (r: Option<String>)
    requires
        process.wf(),
    ensures
        module::opt_view(r) == name_of_address(process.modules(), address),
{
    let m = match process.get_containing_module(address) {
        Some(m) => m,
        None => { return None; },
    };
    let query: u64 = address - m.address;
    match find_closest(m, query) {
        AddressMatch::NoMatch => None,
        AddressMatch::Export(i, rva) => {
            let label = m.exports[i].to_string();
            Some(symbol_with_offset(&m.name, label.as_str(), query - rva))
        },
        AddressMatch::Public(i, rva) => {
            match &m.symbols {
                Some(table) => Some(
                    symbol_with_offset(&m.name, table.publics[i].name.as_str(), query - rva),
                ),
                None => None,
            }
        },
    }
}

/// The index of the first export from `from` on that has the name `func`
/// and leads into its own image, or the number of exports.
pub open spec fn export_named(exports: Seq<Export>, func: Seq<char>, from: int) -> int
    decreases exports.len() - from,
{
    if from < 0 || from >= exports.len() {
        exports.len() as int
    } else if exports[from].name is Some && exports[from].name->Some_0@ == func
        && exports[from].target is RVA {
        from
    } else {
        export_named(exports, func, from + 1)
    }
}

/// The index of the first procedure from `from` on that has the name
/// `func`, or the number of procedures.
pub open spec fn procedure_named(procedures: Seq<ProcedureSymbol>, func: Seq<char>, from: int)
    -> int
    decreases procedures.len() - from,
{
    if from < 0 || from >= procedures.len() {
        procedures.len() as int
    } else if procedures[from].name@ == func {
        from
    } else {
        procedure_named(procedures, func, from + 1)
    }
}

/// `base + rva`, if it is an address.
pub open spec fn address_at(base: u64, rva: u64) -> Option<u64> {
    if base + rva <= u64::MAX {
        Some((base + rva) as u64)
    } else {
        None
    }
}

/// The address of the export called `func`.
pub open spec fn export_address(m: Module, func: Seq<char>) -> Option<u64> {
    let i = export_named(m.exports@, func, 0);
    if i < m.exports@.len() {
        address_at(m.address, m.exports@[i].target->RVA_0)
    } else {
        None
    }
}

/// The address of the procedure called `func` in the module's symbol
/// file: that of the first procedure of this name, if the symbol file
/// places it.
pub open spec fn procedure_address(m: Module, func: Seq<char>) -> Option<u64> {
    match m.symbols {
        None => None,
        Some(table) => {
            let i = procedure_named(table.procedures@, func, 0);
            if i < table.procedures@.len() {
                match table.procedures@[i].rva {
                    Some(rva) => address_at(m.address, rva as u64),
                    None => None,
                }
            } else {
                None
            }
        },
    }
}

/// The address of the function called `func` in a module: exports come
/// before the procedures of the symbol file.
pub open spec fn function_address(m: Module, func: Seq<char>) -> Option<u64> {
    match export_address(m, func) {
        Some(a) => Some(a),
        None => procedure_address(m, func),
    }
}

/// The address of the export called `func`.
fn resolve_export_in_module(m: &Module, func: &Vec<char>) -> (r: Option<u64>)
    ensures
        r == export_address(*m, func@),
{
    let mut i: usize = 0;
    while i < m.exports.len()
        invariant
            i <= m.exports.len(),
            export_named(m.exports@, func@, 0) == export_named(m.exports@, func@, i as int),
        decreases m.exports.len() - i,
    {
        let export = &m.exports[i];
        if let Some(export_name) = &export.name {
            let name = text::chars_of(export_name.as_str());
            if text::chars_equal(&name, func) {
                // Forwarded functions lead to another image and are passed over.
                if let ExportTarget::RVA(export_addr) = &export.target {
                    return m.address.checked_add(*export_addr);
                }
            }
        }
        i = i + 1;
    }
    None
}

/// The address of the procedure called `func` in the module's symbol file.
fn resolve_symbol_name_in_module(m: &Module, func: &Vec<char>) -> (r: Option<u64>)
    ensures
        r == procedure_address(*m, func@),
{
    let table = match &m.symbols {
        Some(t) => t,
        None => { return None; },
    };
    let mut i: usize = 0;
    while i < table.procedures.len()
        invariant
            i <= table.procedures.len(),
            m.symbols == Some(*table),
            procedure_named(table.procedures@, func@, 0) == procedure_named(
                table.procedures@,
                func@,
                i as int,
            ),
        decreases table.procedures.len() - i,
    {
        let name = text::chars_of(table.procedures[i].name.as_str());
        if text::chars_equal(&name, func) {
            return match table.procedures[i].rva {
                Some(rva) => m.address.checked_add(rva as u64),
                None => None,
            };
        }
        i = i + 1;
    }
    None
}

/// The address of the function called `func` in `module`: its export of
/// this name if it has one that leads into the image itself, else the
/// first procedure of this name in its symbol file.
pub fn resolve_function_in_module(module: &Module, func: &str) -> (r: Option<u64>)
    ensures
        r == function_address(*module, func@),
{
    let name = text::chars_of(func);
    let export_resolution = resolve_export_in_module(module, &name);
    if export_resolution.is_some() {
        return export_resolution;
    }
    resolve_symbol_name_in_module(module, &name)
}

/// The address that `module!function` stands for.
pub open spec fn address_of_name(modules: Seq<Module>, sym: Seq<char>) -> Result<u64, DebugError> {
    let pos = text::first_index(sym, '!', 0);
    if pos >= sym.len() {
        Err(DebugError::UnqualifiedSymbol)
    } else {
        let k = process::module_named(modules, sym.take(pos));
        if k >= modules.len() {
            Err(DebugError::UnknownModule)
        } else {
            match function_address(modules[k], sym.skip(pos + 1)) {
                Some(a) => Ok(a),
                None => Err(DebugError::UnknownSymbol),
            }
        }
    }
}

/// Resolves `module!function` to an address. A name without `!` is not
/// looked up.
pub fn resolve_name_to_address(sym: &str, process: &Process) -> (r: Result<u64, DebugError>)
    ensures
        r == address_of_name(process.modules(), sym@),
{
    let chars = text::chars_of(sym);
    let pos = text::find_first(&chars, '!', 0);
    if pos >= chars.len() {
        return Err(DebugError::UnqualifiedSymbol);
    }
    let module_name = text::string_of(&chars, 0, pos);
    let func_name = text::string_of(&chars, pos + 1, chars.len());
    proof {
        assert(chars@.subrange(0, pos as int) =~= sym@.take(pos as int));
        assert(chars@.subrange(pos + 1, chars.len() as int) =~= sym@.skip(pos + 1));
    }
    match process.get_module_by_name(module_name.as_str()) {
        Some(m) => match resolve_function_in_module(m, func_name.as_str()) {
            Some(addr) => Ok(addr),
            None => Err(DebugError::UnknownSymbol),
        },
        None => Err(DebugError::UnknownModule),
    }
}

/// Where the scan of the exports stands after `n` exports, given that export `k` is the answer.
proof fn lemma_closest_export(exports: Seq<Export>, query: u64, k: int, n: int)
    requires
        0 <= k < exports.len(),
        0 <= n <= exports.len(),
        exports[k].target is RVA,
        exports[k].target->RVA_0 <= query,
        forall|j: int|
            0 <= j < exports.len() && (#[trigger] exports[j]).target is RVA ==> exports[j].target->RVA_0
                <= exports[k].target->RVA_0 || exports[j].target->RVA_0 > query,
        forall|j: int|
            0 <= j < k && (#[trigger] exports[j]).target is RVA ==> exports[j].target->RVA_0
                != exports[k].target->RVA_0,
    ensures
        n <= k ==> closest_export(exports, query, n).spec_is_none() || closest_export(
            exports,
            query,
            n,
        ).rva() < exports[k].target->RVA_0,
        n <= k ==> !(closest_export(exports, query, n) is Public),
        n > k ==> closest_export(exports, query, n) == AddressMatch::Export(
            k as usize,
            exports[k].target->RVA_0,
        ),
    decreases n,
{
    if n > 0 {
        lemma_closest_export(exports, query, k, n - 1);
        let e = exports[n - 1];
        assert(e.target is RVA ==> e.target->RVA_0 <= exports[k].target->RVA_0
            || e.target->RVA_0 > query);
    }
}

/// An address from an export up to the next export is named after that
/// export. That is: where a module without symbol file has an export at
/// offset `rva`, the address lies at or after it, no other export lies
/// after `rva` and at or before the address, and the export is the first
/// of those at `rva`, the address is named `module!export`, with the
/// distance from the export where that is not zero.
pub proof fn lemma_export_scan(m: Module, k: int, address: u64)
    requires
        m.symbols is None,
        0 <= k < m.exports@.len(),
        m.exports@[k].target is RVA,
        m.address + m.exports@[k].target->RVA_0 <= address,
        forall|j: int|
            0 <= j < m.exports@.len() && (#[trigger] m.exports@[j]).target is RVA
                ==> m.exports@[j].target->RVA_0 <= m.exports@[k].target->RVA_0 || m.address
                + m.exports@[j].target->RVA_0 > address,
        forall|j: int|
            0 <= j < k && (#[trigger] m.exports@[j]).target is RVA ==> m.exports@[j].target->RVA_0
                != m.exports@[k].target->RVA_0,
    ensures
        name_in_module(m, address) == Some(
            symbol_text(
                m.name@,
                module::export_label(m.exports@[k]@),
                (address - m.address - m.exports@[k].target->RVA_0) as u64,
            ),
        ),
{
    let query = (address - m.address) as u64;
    lemma_closest_export(m.exports@, query, k, m.exports@.len() as int);
    assert(m.exports.len() == m.exports@.len());
    assert((k as usize) as int == k);
}

/// The same for an address looked up in a process: the module that
/// holds the address answers for it.
pub proof fn lemma_export_scan_in_process(modules: Seq<Module>, m: Module, k: int, address: u64)
    requires
        process::containing_module(modules, address) == Some(m),
        m.symbols is None,
        0 <= k < m.exports@.len(),
        m.exports@[k].target is RVA,
        m.address + m.exports@[k].target->RVA_0 <= address,
        forall|j: int|
            0 <= j < m.exports@.len() && (#[trigger] m.exports@[j]).target is RVA
                ==> m.exports@[j].target->RVA_0 <= m.exports@[k].target->RVA_0 || m.address
                + m.exports@[j].target->RVA_0 > address,
        forall|j: int|
            0 <= j < k && (#[trigger] m.exports@[j]).target is RVA ==> m.exports@[j].target->RVA_0
                != m.exports@[k].target->RVA_0,
    ensures
        name_of_address(modules, address) == Some(
            symbol_text(
                m.name@,
                module::export_label(m.exports@[k]@),
                (address - m.address - m.exports@[k].target->RVA_0) as u64,
            ),
        ),
{
    lemma_export_scan(m, k, address);
}

} // verus!
