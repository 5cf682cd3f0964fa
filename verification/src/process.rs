//! The target as the debugger knows it: its loaded modules and its threads.

use vstd::prelude::*;
use crate::error::DebugError;
use crate::memory;
use crate::memory::MemorySource;
use crate::module;
use crate::module::Module;
use crate::symbols::SymbolTable;
use crate::text;

verus! {

/// The modules and threads of the target. Modules stay in the order in
/// which they were loaded and never overlap; a thread is listed once.
#[derive(Debug)]
pub struct Process {
    module_list: Vec<Module>,
    thread_list: Vec<u32>,
}

/// No address lies in both of two ranges, each given by its start and size.
pub open spec fn spans_disjoint(a: u64, a_size: u64, b: u64, b_size: u64) -> bool {
    a_size == 0 || b_size == 0 || a + a_size <= b || b + b_size <= a
}

/// No address lies in both modules.
pub open spec fn ranges_disjoint(a: Module, b: Module) -> bool {
    spans_disjoint(a.address, a.size, b.address, b.size)
}

/// No two modules of the list overlap.
pub open spec fn modules_disjoint(modules: Seq<Module>) -> bool {
    forall|i: int, j: int|
        0 <= i < j < modules.len() ==> ranges_disjoint(#[trigger] modules[i], #[trigger] modules[j])
}

/// `s` without its first `x`.
pub open spec fn without(s: Seq<u32>, x: u32) -> Seq<u32> {
    let p = memory::stop_index(s, x, 0);
    if p < s.len() {
        s.remove(p)
    } else {
        s
    }
}

/// The first `x` of `s` is at `stop_index`, and nothing before it is `x`.
pub proof fn lemma_stop_index(s: Seq<u32>, x: u32, from: int)
    requires
        0 <= from <= s.len(),
    ensures
        from <= memory::stop_index(s, x, from) <= s.len(),
        memory::stop_index(s, x, from) < s.len() ==> s[memory::stop_index(s, x, from)] == x,
        forall|j: int| from <= j < memory::stop_index(s, x, from) ==> s[j] != x,
    decreases s.len() - from,
{
    if from < s.len() && s[from] != x {
        lemma_stop_index(s, x, from + 1);
    }
}

/// Taking a thread off a list without duplicates leaves no trace of it.
pub proof fn lemma_without(s: Seq<u32>, x: u32)
    requires
        s.no_duplicates(),
    ensures
        without(s, x).no_duplicates(),
        !without(s, x).contains(x),
        forall|t: u32| t != x ==> (without(s, x).contains(t) <==> s.contains(t)),
{
    lemma_stop_index(s, x, 0);
    let p = memory::stop_index(s, x, 0);
    let w = without(s, x);
    if p < s.len() {
        assert forall|i: int| 0 <= i < w.len() implies #[trigger] w[i] == s[if i < p {
            i
        } else {
            i + 1
        }] by {}
        assert forall|t: u32| t != x && s.contains(t) implies w.contains(t) by {
            let k = choose|k: int| 0 <= k < s.len() && s[k] == t;
            if k < p {
                assert(w[k] == t);
            } else {
                assert(w[k - 1] == t);
            }
        }
    } else {
        assert(!s.contains(x));
    }
}

/// The module of the list that holds `address`.
pub open spec fn containing_module(modules: Seq<Module>, address: u64) -> Option<Module> {
    if exists|i: int|
        0 <= i < modules.len() && (#[trigger] modules[i]).spec_contains_address(address) {
        Some(
            modules[choose|i: int|
                0 <= i < modules.len() && (#[trigger] modules[i]).spec_contains_address(address)],
        )
    } else {
        None
    }
}

/// Modules that do not overlap hold each address at most once.
pub proof fn lemma_containing_module_unique(modules: Seq<Module>, address: u64, i: int, j: int)
    requires
        modules_disjoint(modules),
        0 <= i < modules.len(),
        0 <= j < modules.len(),
        modules[i].spec_contains_address(address),
        modules[j].spec_contains_address(address),
    ensures
        i == j,
{
    if i < j {
        assert(ranges_disjoint(modules[i], modules[j]));
    } else if j < i {
        assert(ranges_disjoint(modules[j], modules[i]));
    }
}

/// The part of a module's name after its last backslash.
pub open spec fn base_name(name: Seq<char>) -> Seq<char> {
    name.subrange(text::last_index(name, '\\') + 1, name.len() as int)
}

/// The name without its last dot and what follows it.
pub open spec fn strip_extension(name: Seq<char>) -> Seq<char> {
    if text::last_index(name, '.') >= 0 {
        name.take(text::last_index(name, '.'))
    } else {
        name
    }
}

/// How well a module's name answers to the name asked for: 3 exactly,
/// 2 without its path and without regard to case, 1 also without its
/// extension, 0 not at all.
pub open spec fn match_rank(name: Seq<char>, query: Seq<char>) -> int {
    if name == query {
        3
    } else if text::lower_seq(base_name(name)) == text::lower_seq(query) {
        2
    } else if text::lower_seq(strip_extension(base_name(name))) == text::lower_seq(query) {
        1
    } else {
        0
    }
}

/// The index of the first module from `from` on whose name answers to
/// `query` with at least `rank`, or the length of the list.
pub open spec fn first_with_rank(modules: Seq<Module>, query: Seq<char>, rank: int, from: int)
    -> int
    decreases modules.len() - from,
{
    if from < 0 || from >= modules.len() {
        modules.len() as int
    } else if match_rank(modules[from].name@, query) >= rank {
        from
    } else {
        first_with_rank(modules, query, rank, from + 1)
    }
}

/// The module that a name stands for: the first that has exactly this
/// name; else the first whose name without path is this name but for
/// case; else the first for which that holds once the extension is
/// dropped too. The result is an index, or the length of the list.
pub open spec fn module_named(modules: Seq<Module>, query: Seq<char>) -> int {
    if first_with_rank(modules, query, 3, 0) < modules.len() {
        first_with_rank(modules, query, 3, 0)
    } else if first_with_rank(modules, query, 2, 0) < modules.len() {
        first_with_rank(modules, query, 2, 0)
    } else {
        first_with_rank(modules, query, 1, 0)
    }
}

/// How well a module's name answers to the name asked for.
fn rank_of(name: &String, query: &Vec<char>) -> (r: u8)
    ensures
        r == match_rank(name@, query@),
{
    let chars = text::chars_of(name.as_str());
    if text::chars_equal(&chars, query) {
        return 3;
    }
    let start: usize = match text::find_last(&chars, '\\') {
        Some(i) => i + 1,
        None => 0,
    };
    if text::eq_ignore_case(&chars, start, chars.len(), query) {
        return 2;
    }
    let ghost base = base_name(name@);
    let mut trimmed: Vec<char> = Vec::new();
    let mut k: usize = start;
    while k < chars.len()
        invariant
            start <= k <= chars.len(),
            trimmed@ == chars@.subrange(start as int, k as int),
        decreases chars.len() - k,
    {
        trimmed.push(chars[k]);
        assert(trimmed@ =~= chars@.subrange(start as int, k + 1));
        k = k + 1;
    }
    let end: usize = match text::find_last(&trimmed, '.') {
        Some(i) => i,
        None => trimmed.len(),
    };
    proof {
        assert(trimmed@.subrange(0, end as int) =~= strip_extension(base));
    }
    if text::eq_ignore_case(&trimmed, 0, end, query) {
        1
    } else {
        0
    }
}

/// What loading the image at `address` does to a list of modules: the
/// image is appended if it can be read and overlaps no module of the
/// list; else the list stays and the error says why.
pub open spec fn load_result(
    modules: Seq<Module>,
    mem: Map<u64, u8>,
    address: u64,
    name: Option<Seq<char>>,
) -> Result<module::ModuleImage, DebugError> {
    match module::module_at(mem, address, name) {
        Err(e) => Err(e),
        Ok(image) => if exists|i: int|
            0 <= i < modules.len() && !spans_disjoint(
                (#[trigger] modules[i]).address,
                modules[i].size,
                image.address,
                image.size,
            ) {
            Err(DebugError::ModuleOverlap)
        } else {
            Ok(image)
        },
    }
}

/// What a load makes of a list of modules: the image is appended, or the
/// list stays where the load failed.
pub open spec fn after_load(
    before: Seq<Module>,
    after: Seq<Module>,
    loaded: Result<module::ModuleImage, DebugError>,
) -> bool {
    match loaded {
        Ok(image) => after.len() == before.len() + 1 && after.last().is_image(image)
            && after.drop_last() == before,
        Err(_) => after == before,
    }
}

impl Process {
    /// The loaded modules, in the order of their loading.
    pub closed spec fn modules(&self) -> Seq<Module> {
        self.module_list@
    }

    /// The identifiers of the live threads.
    pub closed spec fn threads(&self) -> Seq<u32> {
        self.thread_list@
    }

    /// The invariant of a process: its modules lie in the lower half of
    /// the address space, are at most 4 GiB long and do not overlap, and
    /// no thread is listed twice.
    pub open spec fn wf(&self) -> bool {
        &&& modules_disjoint(self.modules())
        &&& forall|i: int|
            0 <= i < self.modules().len() ==> (#[trigger] self.modules()[i]).address
                <= module::MAX_MODULE_ADDRESS && self.modules()[i].size <= u32::MAX
        &&& self.threads().no_duplicates()
    }

    /// A process with no module and no thread.
    pub fn new() -> (p: Process)
        ensures
            p.wf(),
            p.modules().len() == 0,
            p.threads().len() == 0,
    {
        Process { module_list: Vec::new(), thread_list: Vec::new() }
    }

    /// Reads the image at `address` from the target and appends it to the
    /// modules. An image that cannot be read, or whose range meets that
    /// of a loaded module, leaves the process as it was.
    pub fn add_module<M: MemorySource + ?Sized>(
        &mut self,
        address: u64,
        name: Option<String>,
        memory_source: &M,
    ) -> (r: Result<&Module, DebugError>)
        requires
            old(self).wf(),
        ensures
            final(self).wf(),
            final(self).threads() == old(self).threads(),
            after_load(
                old(self).modules(),
                final(self).modules(),
                load_result(
                    old(self).modules(),
                    memory_source.view(),
                    address,
                    module::opt_view(name),
                ),
            ),
            match load_result(
                old(self).modules(),
                memory_source.view(),
                address,
                module::opt_view(name),
            ) {
                Ok(image) => r is Ok && *r->Ok_0 == final(self).modules().last(),
                Err(e) => r is Err && r->Err_0 == e,
            },
    {
        let module = match Module::from_memory_view(address, name, memory_source) {
            Ok(m) => m,
            Err(e) => { return Err(e); },
        };
        let ghost image = module::module_at(
            memory_source.view(),
            address,
            module::opt_view(name),
        )->Ok_0;
        let mut i: usize = 0;
        while i < self.module_list.len()
            invariant
                i <= self.module_list.len(),
                self.module_list@ == old(self).module_list@,
                self.thread_list@ == old(self).thread_list@,
                old(self).wf(),
                module::module_at(memory_source.view(), address, module::opt_view(name)) == Ok::<
                    module::ModuleImage,
                    DebugError,
                >(image),
                module.is_image(image),
                image.address <= module::MAX_MODULE_ADDRESS,
                image.size <= u32::MAX,
                forall|j: int|
                    0 <= j < i ==> spans_disjoint(
                        (#[trigger] self.module_list@[j]).address,
                        self.module_list@[j].size,
                        image.address,
                        image.size,
                    ),
            decreases self.module_list.len() - i,
        {
            let other = &self.module_list[i];
            assert(other == self.modules()[i as int]);
            if !(other.size == 0 || module.size == 0 || other.address + other.size
                <= module.address || module.address + module.size <= other.address) {
                assert(!spans_disjoint(
                    old(self).modules()[i as int].address,
                    old(self).modules()[i as int].size,
                    image.address,
                    image.size,
                ));
                return Err(DebugError::ModuleOverlap);
            }
            i = i + 1;
        }
        self.module_list.push(module);
        let n = self.module_list.len();
        proof {
            assert(self.module_list@.drop_last() =~= old(self).module_list@);
            let last = self.module_list@[n - 1];
            assert forall|a: int, b: int| 0 <= a < b < self.module_list@.len() implies ranges_disjoint(
                #[trigger] self.module_list@[a],
                #[trigger] self.module_list@[b],
            ) by {
                if b < n - 1 {
                    assert(self.module_list@[a] == old(self).modules()[a]);
                    assert(self.module_list@[b] == old(self).modules()[b]);
                } else {
                    assert(self.module_list@[a] == old(self).modules()[a]);
                }
            }
            assert forall|k: int| 0 <= k < self.modules().len() implies (
            #[trigger] self.modules()[k]).address <= module::MAX_MODULE_ADDRESS
                && self.modules()[k].size <= u32::MAX by {
                if k < n - 1 {
                    assert(self.modules()[k] == old(self).modules()[k]);
                }
            }
        }
        Ok(&self.module_list[n - 1])
    }

    /// Lists a thread, unless it is listed already.
    pub fn add_thread(&mut self, thread_id: u32)
        requires
            old(self).wf(),
        ensures
            final(self).wf(),
            final(self).modules() == old(self).modules(),
            final(self).threads() == if old(self).threads().contains(thread_id) {
                old(self).threads()
            } else {
                old(self).threads().push(thread_id)
            },
    {
        let mut i: usize = 0;
        while i < self.thread_list.len()
            invariant
                i <= self.thread_list.len(),
                self.thread_list@ == old(self).thread_list@,
                self.module_list@ == old(self).module_list@,
                old(self).wf(),
                forall|j: int| 0 <= j < i ==> self.thread_list@[j] != thread_id,
            decreases self.thread_list.len() - i,
        {
            if self.thread_list[i] == thread_id {
                return ;
            }
            i = i + 1;
        }
        self.thread_list.push(thread_id);
    }

    /// Takes a thread off the list.
    pub fn remove_thread(&mut self, thread_id: u32)
        requires
            old(self).wf(),
        ensures
            final(self).wf(),
            final(self).modules() == old(self).modules(),
            final(self).threads() == without(old(self).threads(), thread_id),
            !final(self).threads().contains(thread_id),
    {
        let mut i: usize = 0;
        while i < self.thread_list.len() && self.thread_list[i] != thread_id
            invariant
                i <= self.thread_list.len(),
                self.thread_list@ == old(self).thread_list@,
                self.module_list@ == old(self).module_list@,
                memory::stop_index(self.thread_list@, thread_id, 0) == memory::stop_index(
                    self.thread_list@,
                    thread_id,
                    i as int,
                ),
            decreases self.thread_list.len() - i,
        {
            i = i + 1;
        }
        proof {
            lemma_without(old(self).thread_list@, thread_id);
        }
        if i < self.thread_list.len() {
            self.thread_list.remove(i);
        }
    }

    /// The identifiers of the live threads.
    pub fn iterate_threads(&self) -> (t: &Vec<u32>)
        ensures
            t@ == self.threads(),
    {
        &self.thread_list
    }

    /// The module that holds `address`. There is at most one.
    pub fn get_containing_module(&self, address: u64) -> (r: Option<&Module>)
        requires
            self.wf(),
        ensures
            match r {
                Some(m) => m.spec_contains_address(address) && exists|i: int|
                    0 <= i < self.modules().len() && #[trigger] self.modules()[i] == *m && forall|
                        j: int,
                    |
                        0 <= j < self.modules().len() && j != i ==> !(
                        #[trigger] self.modules()[j]).spec_contains_address(address),
                None => forall|i: int|
                    0 <= i < self.modules().len() ==> !(
                    #[trigger] self.modules()[i]).spec_contains_address(address),
            },
            match r {
                Some(m) => containing_module(self.modules(), address) == Some(*m),
                None => containing_module(self.modules(), address) is None,
            },
    {
        let mut i: usize = 0;
        while i < self.module_list.len()
            invariant
                i <= self.module_list.len(),
                self.wf(),
                forall|j: int|
                    0 <= j < i ==> !(#[trigger] self.module_list@[j]).spec_contains_address(
                        address,
                    ),
            decreases self.module_list.len() - i,
        {
            if self.module_list[i].contains_address(address) {
                proof {
                    assert forall|j: int| 0 <= j < self.modules().len() && j != i implies !(
                    #[trigger] self.modules()[j]).spec_contains_address(address) by {
                        if j > i {
                            assert(ranges_disjoint(self.modules()[i as int], self.modules()[j]));
                        }
                    }
                }
                return Some(&self.module_list[i]);
            }
            i = i + 1;
        }
        None
    }

    /// The module that holds `address`, to be changed in place. The
    /// process is what it was but for what the caller makes of the module.
    pub fn get_containing_module_mut(&mut self, address: u64) -> (r: Option<&mut Module>)
        requires
            old(self).wf(),
        ensures
            final(self).threads() == old(self).threads(),
            match r {
                Some(m) => containing_module(old(self).modules(), address) == Some(*m)
                    && exists|i: int|
                    0 <= i < old(self).modules().len() && #[trigger] old(self).modules()[i] == *m
                        && final(self).modules() == old(self).modules().update(i, *final(m)),
                None => containing_module(old(self).modules(), address) is None
                    && final(self).modules() == old(self).modules(),
            },
    {
        let mut i: usize = 0;
        while i < self.module_list.len()
            invariant
                i <= self.module_list.len(),
                self.module_list@ == old(self).module_list@,
                self.thread_list@ == old(self).thread_list@,
                old(self).wf(),
                forall|j: int|
                    0 <= j < i ==> !(#[trigger] self.module_list@[j]).spec_contains_address(
                        address,
                    ),
            decreases self.module_list.len() - i,
        {
            if self.module_list[i].contains_address(address) {
                proof {
                    assert forall|j: int| 0 <= j < old(self).modules().len() && j != i implies !(
                    #[trigger] old(self).modules()[j]).spec_contains_address(address) by {
                        if j > i {
                            assert(ranges_disjoint(
                                old(self).modules()[i as int],
                                old(self).modules()[j],
                            ));
                        }
                    }
                    assert(old(self).modules()[i as int].spec_contains_address(address));
                }
                return Some(&mut self.module_list[i]);
            }
            i = i + 1;
        }
        None
    }

    /// The index of the module that `module_name` stands for.
    fn find_by_name(&self, module_name: &str) -> (r: Option<usize>)
        ensures
            match r {
                Some(k) => k == module_named(self.modules(), module_name@) && k
                    < self.modules().len(),
                None => module_named(self.modules(), module_name@) == self.modules().len(),
            },
    {
        let query = text::chars_of(module_name);
        let mut exact: Option<usize> = None;
        let mut trimmed: Option<usize> = None;
        let mut noext: Option<usize> = None;
        let mut i: usize = 0;
        let ghost ms = self.modules();
        let ghost q = module_name@;
        while i < self.module_list.len()
            invariant
                i <= self.module_list.len(),
                ms == self.module_list@,
                q == query@,
                match exact {
                    Some(k) => k < i && first_with_rank(ms, q, 3, 0) == k,
                    None => first_with_rank(ms, q, 3, 0) == first_with_rank(ms, q, 3, i as int),
                },
                match trimmed {
                    Some(k) => k < i && first_with_rank(ms, q, 2, 0) == k,
                    None => first_with_rank(ms, q, 2, 0) == first_with_rank(ms, q, 2, i as int),
                },
                match noext {
                    Some(k) => k < i && first_with_rank(ms, q, 1, 0) == k,
                    None => first_with_rank(ms, q, 1, 0) == first_with_rank(ms, q, 1, i as int),
                },
            decreases self.module_list.len() - i,
        {
            let rank = rank_of(&self.module_list[i].name, &query);
            if rank >= 3 && exact.is_none() {
                exact = Some(i);
            }
            if rank >= 2 && trimmed.is_none() {
                trimmed = Some(i);
            }
            if rank >= 1 && noext.is_none() {
                noext = Some(i);
            }
            i = i + 1;
        }
        match exact {
            Some(k) => Some(k),
            None => match trimmed {
                Some(k) => Some(k),
                None => noext,
            },
        }
    }

    /// The module that `module_name` stands for: by its exact name, else
    /// by its name without path and without regard to case, else also
    /// without its extension. Of several the first loaded wins.
    pub fn get_module_by_name(&self, module_name: &str) -> (r: Option<&Module>)
        ensures
            match r {
                Some(m) => module_named(self.modules(), module_name@) < self.modules().len() && *m
                    == self.modules()[module_named(self.modules(), module_name@)],
                None => module_named(self.modules(), module_name@) == self.modules().len(),
            },
    {
        match self.find_by_name(module_name) {
            Some(k) => Some(&self.module_list[k]),
            None => None,
        }
    }

    /// The module that `module_name` stands for, to be changed in place.
    pub fn get_module_by_name_mut(&mut self, module_name: &str) -> (r: Option<&mut Module>)
        ensures
            final(self).threads() == old(self).threads(),
            ({
                let k = module_named(old(self).modules(), module_name@);
                match r {
                    Some(m) => k < old(self).modules().len() && *m == old(self).modules()[k]
                        && final(self).modules() == old(self).modules().update(k, *final(m)),
                    None => k == old(self).modules().len() && final(self).modules()
                        == old(self).modules(),
                }
            }),
    {
        match self.find_by_name(module_name) {
            Some(k) => Some(&mut self.module_list[k]),
            None => None,
        }
    }

    /// Attaches the records of a symbol file to the module that holds
    /// `address`. Says whether there is such a module.
    pub fn set_module_symbols(&mut self, address: u64, symbols: SymbolTable) -> (r: bool)
        requires
            old(self).wf(),
        ensures
            final(self).wf(),
            final(self).threads() == old(self).threads(),
            final(self).modules().len() == old(self).modules().len(),
            r == exists|i: int|
                0 <= i < old(self).modules().len() && (
                #[trigger] old(self).modules()[i]).spec_contains_address(address),
            forall|i: int|
                0 <= i < old(self).modules().len() ==> {
                    let before = #[trigger] old(self).modules()[i];
                    let after = final(self).modules()[i];
                    &&& after.name == before.name
                    &&& after.address == before.address
                    &&& after.size == before.size
                    &&& after.exports == before.exports
                    &&& after.pdb_name == before.pdb_name
                    &&& after.pdb_info == before.pdb_info
                    &&& after.pe_header == before.pe_header
                    &&& after.symbols == if before.spec_contains_address(address) {
                        Some(symbols)
                    } else {
                        before.symbols
                    }
                },
    {
        let mut i: usize = 0;
        while i < self.module_list.len()
            invariant
                i <= self.module_list.len(),
                self.module_list@ == old(self).module_list@,
                self.thread_list@ == old(self).thread_list@,
                old(self).wf(),
                forall|j: int|
                    0 <= j < i ==> !(#[trigger] self.module_list@[j]).spec_contains_address(
                        address,
                    ),
            decreases self.module_list.len() - i,
        {
            if self.module_list[i].contains_address(address) {
                proof {
                    assert forall|j: int| 0 <= j < old(self).modules().len() && j != i implies !(
                    #[trigger] old(self).modules()[j]).spec_contains_address(address) by {
                        if j > i {
                            assert(ranges_disjoint(
                                old(self).modules()[i as int],
                                old(self).modules()[j],
                            ));
                        }
                    }
                }
                self.module_list[i].set_symbols(symbols);
                proof {
                    assert forall|a: int, b: int|
                        0 <= a < b < self.module_list@.len() implies ranges_disjoint(
                        #[trigger] self.module_list@[a],
                        #[trigger] self.module_list@[b],
                    ) by {
                        assert(ranges_disjoint(old(self).modules()[a], old(self).modules()[b]));
                    }
                }
                return true;
            }
            i = i + 1;
        }
        false
    }
}

} // verus!
