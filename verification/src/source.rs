//! Finding the source file that a symbol file names.

use vstd::prelude::*;
use crate::error::DebugError;
use crate::module::Module;
use crate::process;
use crate::process::Process;
use crate::symbols::{CompilationUnit, LineRecord};
use crate::text;

verus! {

/// Whether `c` separates the parts of a path.
pub open spec fn is_separator(c: char) -> bool {
    c == '/' || c == '\\'
}

/// `parts` with `current` appended, unless `current` is empty.
pub open spec fn with_part(parts: Seq<Seq<char>>, current: Seq<char>) -> Seq<Seq<char>> {
    if current.len() > 0 {
        parts.push(current)
    } else {
        parts
    }
}

/// The parts of `path` from position `i` on, where `current` is the part
/// begun before `i`.
pub open spec fn parts_from(path: Seq<char>, i: int, current: Seq<char>) -> Seq<Seq<char>>
    decreases path.len() - i,
{
    if i < 0 || i >= path.len() {
        with_part(Seq::empty(), current)
    } else if is_separator(path[i]) {
        with_part(Seq::empty(), current) + parts_from(path, i + 1, Seq::empty())
    } else {
        parts_from(path, i + 1, current.push(path[i]))
    }
}

/// The parts of a path: its maximal runs of characters other than `/` and `\`.
pub open spec fn path_parts(path: Seq<char>) -> Seq<Seq<char>> {
    parts_from(path, 0, Seq::empty())
}

/// `root` followed by the parts from `i` on, each after a `/`.
pub open spec fn join_from(root: Seq<char>, parts: Seq<Seq<char>>, i: int) -> Seq<char>
    decreases parts.len() - i,
{
    if i < 0 || i >= parts.len() {
        root
    } else {
        join_from(root + seq!['/'] + parts[i], parts, i + 1)
    }
}

/// The paths tried under one root: the root joined with the whole hint,
/// then with the hint less its first part, and so on to the file name alone.
pub open spec fn root_candidates(root: Seq<char>, parts: Seq<Seq<char>>) -> Seq<Seq<char>> {
    Seq::new(parts.len(), |i: int| join_from(root, parts, i))
}

/// The paths tried for a hint, root by root in the order of the roots.
pub open spec fn candidates_from(roots: Seq<Seq<char>>, parts: Seq<Seq<char>>, r: int) -> Seq<
    Seq<char>,
>
    decreases roots.len() - r,
{
    if r < 0 || r >= roots.len() {
        Seq::empty()
    } else {
        root_candidates(roots[r], parts) + candidates_from(roots, parts, r + 1)
    }
}

/// All the paths tried for the hint `file` under the search roots, in
/// the order in which they are tried.
pub open spec fn candidates(file: Seq<char>, roots: Seq<Seq<char>>) -> Seq<Seq<char>> {
    candidates_from(roots, path_parts(file), 0)
}

/// The index of the first `true` from `from` on, or the length of the list.
pub open spec fn first_true(present: Seq<bool>, from: int) -> int
    decreases present.len() - from,
{
    if from < 0 || from >= present.len() {
        present.len() as int
    } else if present[from] {
        from
    } else {
        first_true(present, from + 1)
    }
}

/// `Path::exists` of the standard library: whether the file system has an
/// entry at `path` at the time of the call. Nothing is promised of the answer.
#[verifier::external_body]
fn path_exists(path: &str) -> (present: bool) {
    std::path::Path::new(path).exists()
}

/// `Path::is_absolute` of the standard library: whether the platform
/// takes `path` as absolute. Nothing is promised of the answer.
#[verifier::external_body]
fn path_is_absolute(path: &str) -> (absolute: bool) {
    std::path::Path::new(path).is_absolute()
}

/// Splits a path into its parts.
pub fn split_path(path: &str) -> (parts: Vec<Vec<char>>)
    ensures
        Seq::new(parts@.len(), |i: int| parts@[i]@) == path_parts(path@),
{
    let chars = text::chars_of(path);
    let mut parts: Vec<Vec<char>> = Vec::new();
    let mut current: Vec<char> = Vec::new();
    let mut i: usize = 0;
    while i < chars.len()
        invariant
            i <= chars.len(),
            chars@ == path@,
            path_parts(path@) == Seq::new(parts@.len(), |k: int| parts@[k]@) + parts_from(
                path@,
                i as int,
                current@,
            ),
        decreases chars.len() - i,
    {
        let c = chars[i];
        let ghost done = Seq::new(parts@.len(), |k: int| parts@[k]@);
        if c == '/' || c == '\\' {
            if current.len() > 0 {
                let ghost cur = current@;
                parts.push(current);
                current = Vec::new();
                proof {
                    assert(Seq::new(parts@.len(), |k: int| parts@[k]@) =~= done.push(cur));
                    assert(done + (seq![cur] + parts_from(path@, i + 1, Seq::empty()))
                        =~= done.push(cur) + parts_from(path@, i + 1, Seq::empty()));
                    assert(with_part(Seq::empty(), cur) =~= seq![cur]);
                }
            } else {
                proof {
                    assert(current@ =~= Seq::<char>::empty());
                    assert(Seq::<Seq<char>>::empty() + parts_from(path@, i + 1, Seq::empty())
                        =~= parts_from(path@, i + 1, Seq::empty()));
                }
            }
        } else {
            current.push(c);
        }
        i = i + 1;
    }
    let ghost done = Seq::new(parts@.len(), |k: int| parts@[k]@);
    if current.len() > 0 {
        let ghost cur = current@;
        parts.push(current);
        proof {
            assert(Seq::new(parts@.len(), |k: int| parts@[k]@) =~= done.push(cur));
            assert(done + seq![cur] =~= done.push(cur));
            assert(with_part(Seq::empty(), cur) =~= seq![cur]);
        }
    } else {
        proof {
            assert(done + Seq::<Seq<char>>::empty() =~= done);
        }
    }
    parts
}

/// The paths to try for the hint `file` under each of the search roots.
pub fn source_file_candidates(file: &str, search_paths: &Vec<String>) -> (r: Vec<String>)
    ensures
        text::views(r@) == candidates(file@, text::views(search_paths@)),
{
    let parts = split_path(file);
    let ghost ps = path_parts(file@);
    let ghost roots = text::views(search_paths@);
    let mut out: Vec<String> = Vec::new();
    let mut r: usize = search_paths.len();
    proof {
        assert(text::views(out@) =~= candidates_from(roots, ps, r as int));
    }
    // Built from the last root back, so that each step puts one root's
    // candidates in front of what is there.
    while r > 0
        invariant
            r <= search_paths.len(),
            ps == Seq::new(parts@.len(), |k: int| parts@[k]@),
            roots == text::views(search_paths@),
            text::views(out@) == candidates_from(roots, ps, r as int),
        decreases r,
    {
        r = r - 1;
        let ghost rest = text::views(out@);
        let mut i: usize = parts.len();
        while i > 0
            invariant
                i <= parts.len(),
                r < search_paths.len(),
                ps == Seq::new(parts@.len(), |k: int| parts@[k]@),
                roots == text::views(search_paths@),
                text::views(out@) == root_candidates(roots[r as int], ps).subrange(
                    i as int,
                    ps.len() as int,
                ) + rest,
            decreases i,
        {
            i = i - 1;
            let mut path = String::new();
            text::push_str(&mut path, search_paths[r].as_str());
            let mut k: usize = i;
            assert(path@ =~= roots[r as int]);
            while k < parts.len()
                invariant
                    i <= k <= parts.len(),
                    r < search_paths.len(),
                    roots == text::views(search_paths@),
                    ps == Seq::new(parts@.len(), |k: int| parts@[k]@),
                    join_from(roots[r as int], ps, i as int) == join_from(path@, ps, k as int),
                decreases parts.len() - k,
            {
                let ghost start = path@;
                text::push_char(&mut path, '/');
                text::push_chars(&mut path, &parts[k], 0, parts[k].len());
                proof {
                    assert(parts@[k as int]@.subrange(0, parts@[k as int]@.len() as int)
                        =~= parts@[k as int]@);
                    assert(ps[k as int] == parts@[k as int]@);
                    assert(path@ =~= start + seq!['/'] + ps[k as int]);
                }
                k = k + 1;
            }
            let ghost before = out@;
            out.insert(0, path);
            proof {
                let all = root_candidates(roots[r as int], ps);
                assert(text::views(out@) =~= seq![all[i as int]] + text::views(before));
                assert(all.subrange(i as int, ps.len() as int) =~= seq![all[i as int]]
                    + all.subrange(i + 1, ps.len() as int));
                assert(text::views(out@) =~= all.subrange(i as int, ps.len() as int) + rest);
            }
        }
        proof {
            let all = root_candidates(roots[r as int], ps);
            assert(all.subrange(0, ps.len() as int) =~= all);
        }
    }
    out
}

/// The index of the first candidate that is there.
pub fn first_present(present: &Vec<bool>) -> (r: Option<usize>)
    ensures
        match r {
            Some(i) => i == first_true(present@, 0) && i < present.len(),
            None => first_true(present@, 0) == present.len(),
        },
{
    let mut i: usize = 0;
    while i < present.len()
        invariant
            i <= present.len(),
            first_true(present@, 0) == first_true(present@, i as int),
        decreases present.len() - i,
    {
        if present[i] {
            return Some(i);
        }
        i = i + 1;
    }
    None
}

/// Finds the file that the hint `file` names. An absolute hint that
/// exists is the answer. Otherwise each search root is tried in turn
/// with the whole hint, then with the hint less its leading parts, down
/// to the file name alone; the first candidate that exists wins.
pub fn find_source_file_match(file: &str, search_paths: &Vec<String>) -> (r: Result<
    String,
    DebugError,
>)
    ensures
        match r {
            Ok(path) => path@ == file@ || candidates(file@, text::views(search_paths@)).contains(
                path@,
            ),
            Err(e) => e == DebugError::FileNotFound,
        },
{
    if path_is_absolute(file) && path_exists(file) {
        let mut s = String::new();
        text::push_str(&mut s, file);
        assert(s@ =~= file@);
        return Ok(s);
    }
    let mut found = source_file_candidates(file, search_paths);
    let ghost all = text::views(found@);
    let mut present: Vec<bool> = Vec::new();
    let mut i: usize = 0;
    while i < found.len()
        invariant
            i <= found.len(),
            present.len() == i,
        decreases found.len() - i,
    {
        present.push(path_exists(found[i].as_str()));
        i = i + 1;
    }
    match first_present(&present) {
        Some(k) => {
            let path = found.swap_remove(k);
            assert(all[k as int] == path@);
            Ok(path)
        },
        None => Err(DebugError::FileNotFound),
    }
}

/// Whether the code of a line record holds the offset `query`.
pub open spec fn line_covers(line: LineRecord, query: u64) -> bool {
    line.rva is Some && line.rva->Some_0 <= query && line.length is Some && query
        - line.rva->Some_0 < line.length->Some_0
}

/// The index of the first line record from `from` on whose code holds
/// `query`, or the number of records.
pub open spec fn covering_line(lines: Seq<LineRecord>, query: u64, from: int) -> int
    decreases lines.len() - from,
{
    if from < 0 || from >= lines.len() {
        lines.len() as int
    } else if line_covers(lines[from], query) {
        from
    } else {
        covering_line(lines, query, from + 1)
    }
}

/// The index of the first unit from `from` on with a line record whose
/// code holds `query`, or the number of units.
pub open spec fn covering_unit(units: Seq<CompilationUnit>, query: u64, from: int) -> int
    decreases units.len() - from,
{
    if from < 0 || from >= units.len() {
        units.len() as int
    } else if covering_line(units[from].lines@, query, 0) < units[from].lines@.len() {
        from
    } else {
        covering_unit(units, query, from + 1)
    }
}

/// The source line of an address: file and first line of the first line
/// record, unit by unit, whose code holds the address.
pub open spec fn source_line_of(modules: Seq<Module>, address: u64) -> Result<
    (Seq<char>, u32),
    DebugError,
> {
    match process::containing_module(modules, address) {
        None => Err(DebugError::ModuleNotFound),
        Some(m) => match m.symbols {
            None => Err(DebugError::SymbolsUnavailable),
            Some(table) => {
                let query = (address - m.address) as u64;
                let u = covering_unit(table.units@, query, 0);
                if u >= table.units@.len() {
                    Err(DebugError::AddressNotFound)
                } else {
                    let line = table.units@[u].lines@[covering_line(table.units@[u].lines@, query, 0)];
                    Ok((line.file@, line.line_start))
                }
            },
        },
    }
}

/// Finds the source line that the code at `address` comes from.
pub fn resolve_address_to_source_line(address: u64, process: &Process) -> (r: Result<
    (String, u32),
    DebugError,
>)
    requires
        process.wf(),
    ensures
        match source_line_of(process.modules(), address) {
            Ok((file, line)) => r is Ok && r->Ok_0.0@ == file && r->Ok_0.1 == line,
            Err(e) => r is Err && r->Err_0 == e,
        },
{
    let m = match process.get_containing_module(address) {
        Some(m) => m,
        None => { return Err(DebugError::ModuleNotFound); },
    };
    let table = match &m.symbols {
        Some(t) => t,
        None => { return Err(DebugError::SymbolsUnavailable); },
    };
    let query: u64 = address - m.address;
    let mut u: usize = 0;
    while u < table.units.len()
        invariant
            u <= table.units.len(),
            process::containing_module(process.modules(), address) == Some(*m),
            m.symbols == Some(*table),
            query == address - m.address,
            covering_unit(table.units@, query, 0) == covering_unit(table.units@, query, u as int),
        decreases table.units.len() - u,
    {
        let lines = &table.units[u].lines;
        let mut i: usize = 0;
        while i < lines.len()
            invariant
                i <= lines.len(),
                u < table.units.len(),
                *lines == table.units@[u as int].lines,
                process::containing_module(process.modules(), address) == Some(*m),
                m.symbols == Some(*table),
                query == address - m.address,
                covering_unit(table.units@, query, 0) == covering_unit(
                    table.units@,
                    query,
                    u as int,
                ),
                covering_line(lines@, query, 0) == covering_line(lines@, query, i as int),
            decreases lines.len() - i,
        {
            let line = &lines[i];
            let covers = match (line.rva, line.length) {
                (Some(start), Some(length)) => start as u64 <= query && query - (start as u64) < (
                length as u64),
                _ => false,
            };
            if covers {
                return Ok((line.file.clone(), line.line_start));
            }
            i = i + 1;
        }
        u = u + 1;
    }
    Err(DebugError::AddressNotFound)
}

/// The index of the first string from `from` on that equals `file`, or
/// the length of the list.
pub open spec fn file_index(files: Seq<String>, file: Seq<char>, from: int) -> int
    decreases files.len() - from,
{
    if from < 0 || from >= files.len() {
        files.len() as int
    } else if files[from]@ == file {
        from
    } else {
        file_index(files, file, from + 1)
    }
}

/// Whether a line record stands for line `src_line` of `file`.
pub open spec fn line_matches(line: LineRecord, file: Seq<char>, src_line: u32) -> bool {
    line.file@ == file && line.line_start <= src_line <= line.line_end
}

/// The index of the first line record from `from` on that stands for
/// the line, or the number of records.
pub open spec fn matching_line(lines: Seq<LineRecord>, file: Seq<char>, src_line: u32, from: int)
    -> int
    decreases lines.len() - from,
{
    if from < 0 || from >= lines.len() {
        lines.len() as int
    } else if line_matches(lines[from], file, src_line) {
        from
    } else {
        matching_line(lines, file, src_line, from + 1)
    }
}

/// Whether a unit names `file` among its files and has a record for the line.
pub open spec fn unit_matches(unit: CompilationUnit, file: Seq<char>, src_line: u32) -> bool {
    file_index(unit.files@, file, 0) < unit.files@.len() && matching_line(
        unit.lines@,
        file,
        src_line,
        0,
    ) < unit.lines@.len()
}

/// The index of the first unit from `from` on that matches, or the
/// number of units.
pub open spec fn matching_unit(
    units: Seq<CompilationUnit>,
    file: Seq<char>,
    src_line: u32,
    from: int,
) -> int
    decreases units.len() - from,
{
    if from < 0 || from >= units.len() {
        units.len() as int
    } else if unit_matches(units[from], file, src_line) {
        from
    } else {
        matching_unit(units, file, src_line, from + 1)
    }
}

/// The address of a source line: that of the first line record for it,
/// among the units that name the file.
pub open spec fn address_of_source_line(
    modules: Seq<Module>,
    module_name: Seq<char>,
    file: Seq<char>,
    src_line: u32,
) -> Result<u64, DebugError> {
    let k = process::module_named(modules, module_name);
    if k >= modules.len() {
        Err(DebugError::ModuleNotFound)
    } else {
        match modules[k].symbols {
            None => Err(DebugError::SymbolsUnavailable),
            Some(table) => {
                let u = matching_unit(table.units@, file, src_line, 0);
                if u >= table.units@.len() {
                    Err(DebugError::SourceLineNotFound)
                } else {
                    let line = table.units@[u].lines@[matching_line(
                        table.units@[u].lines@,
                        file,
                        src_line,
                        0,
                    )];
                    match line.rva {
                        None => Err(DebugError::AddressNotFound),
                        Some(rva) => if modules[k].address + rva > u64::MAX {
                            Err(DebugError::AddressOutOfRange)
                        } else {
                            Ok((modules[k].address + rva) as u64)
                        },
                    }
                }
            },
        }
    }
}

/// Whether the unit names `src_file` among its files.
fn line_program_references_file(unit: &CompilationUnit, src_file: &Vec<char>) -> (r: bool)
    ensures
        r == (file_index(unit.files@, src_file@, 0) < unit.files@.len()),
{
    let mut i: usize = 0;
    while i < unit.files.len()
        invariant
            i <= unit.files.len(),
            file_index(unit.files@, src_file@, 0) == file_index(unit.files@, src_file@, i as int),
        decreases unit.files.len() - i,
    {
        let cur_file_name = text::chars_of(unit.files[i].as_str());
        if text::chars_equal(&cur_file_name, src_file) {
            return true;
        }
        i = i + 1;
    }
    false
}

/// Finds the address of the code that line `src_line` of `src_file`
/// became, in the module called `module_name`.
pub fn resolve_source_line_to_address(
    module_name: &str,
    src_file: &str,
    src_line: u32,
    process: &Process,
) -> (r: Result<u64, DebugError>)
    ensures
        r == address_of_source_line(process.modules(), module_name@, src_file@, src_line),
{
    let process_module = match process.get_module_by_name(module_name) {
        Some(m) => m,
        None => { return Err(DebugError::ModuleNotFound); },
    };
    let table = match &process_module.symbols {
        Some(t) => t,
        None => { return Err(DebugError::SymbolsUnavailable); },
    };
    let file = text::chars_of(src_file);
    let ghost k = process::module_named(process.modules(), module_name@);
    let mut u: usize = 0;
    while u < table.units.len()
        invariant
            u <= table.units.len(),
            k < process.modules().len(),
            process.modules()[k] == *process_module,
            k == process::module_named(process.modules(), module_name@),
            process_module.symbols == Some(*table),
            file@ == src_file@,
            matching_unit(table.units@, file@, src_line, 0) == matching_unit(
                table.units@,
                file@,
                src_line,
                u as int,
            ),
        decreases table.units.len() - u,
    {
        let unit = &table.units[u];
        if line_program_references_file(unit, &file) {
            let mut i: usize = 0;
            while i < unit.lines.len()
                invariant
                    i <= unit.lines.len(),
                    u < table.units.len(),
                    *unit == table.units@[u as int],
                    k < process.modules().len(),
                    process.modules()[k] == *process_module,
                    k == process::module_named(process.modules(), module_name@),
                    process_module.symbols == Some(*table),
                    file@ == src_file@,
                    file_index(unit.files@, file@, 0) < unit.files@.len(),
                    matching_unit(table.units@, file@, src_line, 0) == matching_unit(
                        table.units@,
                        file@,
                        src_line,
                        u as int,
                    ),
                    matching_line(unit.lines@, file@, src_line, 0) == matching_line(
                        unit.lines@,
                        file@,
                        src_line,
                        i as int,
                    ),
                decreases unit.lines.len() - i,
            {
                let line = &unit.lines[i];
                let cur_file_name = text::chars_of(line.file.as_str());
                if text::chars_equal(&cur_file_name, &file) && line.line_start <= src_line
                    && src_line <= line.line_end {
                    return match line.rva {
                        None => Err(DebugError::AddressNotFound),
                        Some(rva) => match process_module.address.checked_add(rva as u64) {
                            Some(address) => Ok(address),
                            None => Err(DebugError::AddressOutOfRange),
                        },
                    };
                }
                i = i + 1;
            }
        }
        u = u + 1;
    }
    Err(DebugError::SourceLineNotFound)
}

} // verus!
