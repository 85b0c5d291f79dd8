//! The module registry: reference-counted records of loaded modules, the
//! virtual library table, search paths, hook and descriptor symbol names,
//! and the commit of a candidate through the negotiation engine.
//!
//! Everything that must touch the operating system — opening a shared
//! object, reading bytes at a foreign address, invoking a hook — lives
//! outside this crate; the registry decides, the caller performs.

use vstd::prelude::*;

use crate::deps::{spec_commit, spec_err_error, spec_negotiate, DepsMap, DepsView};
use crate::error::Error;
use crate::metadata::{
    parse_metadata, spec_metadata_of, spec_metadata_ok, Metadata,
};
use crate::strutil::{normalize_name, spec_find, spec_normalize_name, spec_upper, str_eq, to_upper};
use vstd::utf8::{decode_utf8, valid_utf8};

verus! {

/// A typed view of a foreign address. The registry never fabricates one:
/// they enter through the virtual library table or through the caller's
/// symbol resolution, and stay valid only while the owning module lives.
pub struct Symbol {
    addr: usize,
}

impl View for Symbol {
    type V = usize;

    closed spec fn view(&self) -> usize {
        self.addr
    }
}

impl Symbol {
    /// Wraps a raw address.
    pub fn new(addr: usize) -> (r: Symbol)
        ensures
            r@ == addr,
    {
        Symbol { addr }
    }

    /// Returns the raw address of this symbol.
    pub fn as_ptr(&self) -> (r: usize)
        ensures
            r == self@,
    {
        self.addr
    }
}

/// The first address bound to `name` in a symbol table.
pub open spec fn spec_lookup(symbols: Seq<(Seq<char>, usize)>, name: Seq<char>) -> Option<usize>
    decreases symbols.len(),
{
    if symbols.len() == 0 {
        None
    } else if symbols[0].0 == name {
        Some(symbols[0].1)
    } else {
        spec_lookup(symbols.skip(1), name)
    }
}

/// A compile-time table of name-to-address pairs standing in for a module
/// linked directly into the host binary. It owns no OS handle and is never
/// freed.
pub struct VirtualLibrary {
    name: String,
    symbols: Vec<(String, usize)>,
}

impl VirtualLibrary {
    /// The table's view: its symbols as pairs of text and address.
    pub closed spec fn symbols_view(&self) -> Seq<(Seq<char>, usize)> {
        self.symbols@.map_values(|p: (String, usize)| (p.0@, p.1))
    }

    /// The library's name.
    pub closed spec fn name_view(&self) -> Seq<char> {
        self.name@
    }

    /// Creates a new [VirtualLibrary] from a name and a symbol table.
    pub fn new(name: String, symbols: Vec<(String, usize)>) -> (r: VirtualLibrary)
        ensures
            r.name_view() == name@,
            r.symbols_view() == symbols@.map_values(|p: (String, usize)| (p.0@, p.1)),
    {
        VirtualLibrary { name, symbols }
    }

    /// Returns the name of this [VirtualLibrary].
    pub fn name(&self) -> (r: &str)
        ensures
            r@ == self.name_view(),
    {
        self.name.as_str()
    }

    /// Resolves a symbol by name: the first binding wins, a missing name is
    /// no error, and a name holding a NUL character is rejected.
    pub fn load_symbol(&self, name: &str) -> (r: Result<Option<Symbol>, Error>)
        ensures
            match r {
                Ok(Some(sym)) => spec_find(name@, '\0') is None && spec_lookup(
                    self.symbols_view(),
                    name@,
                ) == Some(sym@),
                Ok(None) => spec_find(name@, '\0') is None && spec_lookup(
                    self.symbols_view(),
                    name@,
                ) is None,
                Err(e) => e == Error::Null && spec_find(name@, '\0') is Some,
            },
    {
        if crate::strutil::find_char(name, '\0').is_some() {
            return Result::Err(Error::Null);
        }
        let ghost table = self.symbols_view();
        let n: usize = self.symbols.len();
        let mut i: usize = 0;
        proof {
            assert(table.skip(0int) =~= table);
        }
        while i < n
            invariant
                0 <= i <= n,
                n == table.len(),
                table == self.symbols_view(),
                spec_find(name@, '\0') is None,
                spec_lookup(table, name@) == spec_lookup(table.skip(i as int), name@),
            decreases n - i,
        {
            proof {
                assert(table[i as int] == (self.symbols@[i as int].0@, self.symbols@[i as int].1));
                assert(table.skip(i as int)[0] == table[i as int]);
                assert(table.skip(i as int).skip(1) =~= table.skip(i + 1 as int));
            }
            if str_eq(self.symbols[i].0.as_str(), name) {
                return Result::Ok(Some(Symbol::new(self.symbols[i].1)));
            }
            i = i + 1;
        }
        proof {
            assert(table.skip(n as int) =~= Seq::<(Seq<char>, usize)>::empty());
        }
        Result::Ok(None)
    }
}

/// The mathematical image of one registered module.
pub ghost struct ModView {
    /// The loader-assigned identifier, stable for the module's lifetime.
    pub id: nat,
    /// How many loads are outstanding; the module is finalized at zero.
    pub ref_count: nat,
    /// Whether the module came from the virtual library table.
    pub builtin: bool,
    /// The parsed metadata of the module.
    pub metadata: Map<Seq<char>, Seq<char>>,
}

/// The mathematical image of the registry.
pub ghost struct LoaderView {
    /// Every registered module, by normalized name.
    pub modules: Map<Seq<char>, ModView>,
    /// The next identifier to assign; identifiers are never reused.
    pub next_id: nat,
    /// The negotiation state.
    pub deps: DepsView,
    /// The configured search paths, in order.
    pub paths: Seq<Seq<char>>,
}

/// One registered module.
struct ModuleRecord {
    id: usize,
    name: String,
    metadata: Metadata,
    ref_count: u64,
    builtin: bool,
}

/// What a repeated load finds in the registry.
pub enum RefResult {
    /// The name is not registered at all.
    Absent,
    /// The module was already loaded: its reference count was incremented
    /// and its identifier is returned.
    Incremented(usize),
    /// The name is registered, but as the other kind of module.
    WrongKind,
}

/// What an unload did.
pub enum UnloadOutcome {
    /// Other loads are still outstanding; the module stays registered with
    /// this identifier and the returned count.
    StillHeld(usize, u64),
    /// The last load was released: the module left the registry and its
    /// close protocol must now run. The flag says whether it was a builtin.
    Finalized(usize, bool),
}

/// The module loader registry. It assigns identifiers, counts references,
/// negotiates candidates, and never reuses an identifier.
pub struct ModuleLoader {
    paths: Vec<String>,
    records: Vec<ModuleRecord>,
    deps: DepsMap,
    builtins: Vec<VirtualLibrary>,
    last_module_id: usize,
}

impl View for ModuleLoader {
    type V = LoaderView;

    closed spec fn view(&self) -> LoaderView {
        LoaderView {
            modules: Self::records_view(self.records@),
            next_id: self.last_module_id as nat,
            deps: self.deps@,
            paths: self.paths@.map_values(|p: String| p@),
        }
    }
}

impl ModuleLoader {
    /// The map an ordered record list denotes.
    closed spec fn records_view(s: Seq<ModuleRecord>) -> Map<Seq<char>, ModView>
        decreases s.len(),
    {
        if s.len() == 0 {
            Map::empty()
        } else {
            Self::records_view(s.drop_last()).insert(
                s.last().name@,
                ModView {
                    id: s.last().id as nat,
                    ref_count: s.last().ref_count as nat,
                    builtin: s.last().builtin,
                    metadata: s.last().metadata@,
                },
            )
        }
    }

    /// Internal soundness of the registry: record names are unique, every
    /// reference count is at least one and small enough to increment, and
    /// every assigned identifier lies below the next one.
    pub closed spec fn wf(&self) -> bool {
        &&& forall|i: int, j: int|
            0 <= i < j < self.records@.len() ==> self.records@[i].name@ != self.records@[j].name@
        &&& forall|i: int|
            0 <= i < self.records@.len() ==> 1 <= (#[trigger] self.records@[i]).ref_count
                < 0xffff_ffff_ffff_ffff
        &&& forall|i: int|
            0 <= i < self.records@.len() ==> (#[trigger] self.records@[i]).id
                < self.last_module_id
        &&& self.deps.wf()
    }
}


impl View for ModuleRecord {
    type V = ModView;

    closed spec fn view(&self) -> ModView {
        ModView {
            id: self.id as nat,
            ref_count: self.ref_count as nat,
            builtin: self.builtin,
            metadata: self.metadata@,
        }
    }
}

impl ModuleRecord {
    /// The loader-assigned identifier.
    pub fn id(&self) -> (r: usize)
        ensures
            r as nat == self@.id,
    {
        self.id
    }

    /// The module's normalized name.
    pub closed spec fn name_view(&self) -> Seq<char> {
        self.name@
    }

    /// The module's normalized name.
    pub fn name(&self) -> (r: &str)
        ensures
            r@ == self.name_view(),
    {
        self.name.as_str()
    }

    /// Whether the module came from the virtual library table.
    pub fn is_builtin(&self) -> (r: bool)
        ensures
            r == self@.builtin,
    {
        self.builtin
    }

    /// Gets a metadata key by its name.
    pub fn get_metadata_key(&self, key: &str) -> (r: Option<&str>)
        ensures
            match r {
                Some(v) => self@.metadata.contains_key(key@) && v@ == self@.metadata[key@],
                None => !self@.metadata.contains_key(key@),
            },
    {
        match self.metadata.get(key) {
            Some(v) => Some(v.as_str()),
            None => None,
        }
    }
}

impl ModuleLoader {
    /// With unique names, the record list and its map say the same thing.
    proof fn lemma_records_view(s: Seq<ModuleRecord>)
        requires
            forall|i: int, j: int| 0 <= i < j < s.len() ==> s[i].name@ != s[j].name@,
        ensures
            forall|k: Seq<char>|
                Self::records_view(s).contains_key(k) <==> exists|i: int|
                    0 <= i < s.len() && (#[trigger] s[i]).name@ == k,
            forall|i: int|
                0 <= i < s.len() ==> Self::records_view(s)[(#[trigger] s[i]).name@] == s[i]@,
        decreases s.len(),
    {
        if s.len() > 0 {
            Self::lemma_records_view(s.drop_last());
            assert forall|k: Seq<char>|
                Self::records_view(s).contains_key(k) <==> exists|i: int|
                    0 <= i < s.len() && (#[trigger] s[i]).name@ == k by {
                if Self::records_view(s).contains_key(k) {
                    if k == s.last().name@ {
                        assert(s[s.len() - 1].name@ == k);
                    } else {
                        assert(Self::records_view(s.drop_last()).contains_key(k));
                        let i = choose|i: int|
                            0 <= i < s.drop_last().len() && (#[trigger] s.drop_last()[i]).name@
                                == k;
                        assert(s.drop_last()[i] == s[i]);
                        assert(s[i].name@ == k);
                    }
                }
                if exists|i: int| 0 <= i < s.len() && (#[trigger] s[i]).name@ == k {
                    let i = choose|i: int| 0 <= i < s.len() && (#[trigger] s[i]).name@ == k;
                    if i < s.len() - 1 {
                        assert(s.drop_last()[i] == s[i]);
                        assert(s.drop_last()[i].name@ == k);
                    }
                }
            }
            assert forall|i: int|
                0 <= i < s.len() implies Self::records_view(s)[(#[trigger] s[i]).name@]
                == s[i]@ by {
                if i < s.len() - 1 {
                    assert(s.drop_last()[i] == s[i]);
                    assert(s[i].name@ != s.last().name@);
                }
            }
        }
    }

    /// The position of the record named `name`, if any.
    fn find_record(&self, name: &str) -> (r: Option<usize>)
        requires
            self.wf(),
        ensures
            match r {
                Some(i) => i < self.records@.len() && self.records@[i as int].name@ == name@
                    && self@.modules.contains_key(name@) && self@.modules[name@]
                    == self.records@[i as int]@,
                None => !self@.modules.contains_key(name@),
            },
    {
        proof {
            Self::lemma_records_view(self.records@);
        }
        let n: usize = self.records.len();
        let mut i: usize = 0;
        while i < n
            invariant
                0 <= i <= n,
                n == self.records@.len(),
                self.wf(),
                forall|j: int| 0 <= j < i ==> (#[trigger] self.records@[j]).name@ != name@,
            decreases n - i,
        {
            if str_eq(self.records[i].name.as_str(), name) {
                proof {
                    Self::lemma_records_view(self.records@);
                }
                return Some(i);
            }
            i = i + 1;
        }
        proof {
            Self::lemma_records_view(self.records@);
            if self@.modules.contains_key(name@) {
                let j = choose|j: int|
                    0 <= j < self.records@.len() && (#[trigger] self.records@[j]).name@ == name@;
                assert(false);
            }
        }
        None
    }
}


impl ModuleLoader {
    /// Unique record names, as the registry keeps them.
    spec fn unique_names(s: Seq<ModuleRecord>) -> bool {
        forall|i: int, j: int| 0 <= i < j < s.len() ==> s[i].name@ != s[j].name@
    }

    /// Updating one record in place rebinds exactly its name.
    proof fn lemma_view_update(s: Seq<ModuleRecord>, i: int, r: ModuleRecord)
        requires
            Self::unique_names(s),
            0 <= i < s.len(),
            r.name@ == s[i].name@,
        ensures
            Self::unique_names(s.update(i, r)),
            Self::records_view(s.update(i, r)) == Self::records_view(s).insert(r.name@, r@),
    {
        let s2 = s.update(i, r);
        Self::lemma_records_view(s);
        Self::lemma_records_view(s2);
        assert forall|k: Seq<char>|
            Self::records_view(s2).contains_key(k) == Self::records_view(s).insert(
                r.name@,
                r@,
            ).contains_key(k) by {
            if Self::records_view(s2).contains_key(k) {
                let j = choose|j: int| 0 <= j < s2.len() && (#[trigger] s2[j]).name@ == k;
                if j != i {
                    assert(s[j].name@ == k);
                }
            }
            if Self::records_view(s).contains_key(k) {
                let j = choose|j: int| 0 <= j < s.len() && (#[trigger] s[j]).name@ == k;
                if j != i {
                    assert(s2[j].name@ == k);
                } else {
                    assert(s2[i].name@ == k);
                }
            }
            if k == r.name@ {
                assert(s2[i].name@ == k);
            }
        }
        assert forall|k: Seq<char>|
            Self::records_view(s2).contains_key(k) implies Self::records_view(s2)[k]
            == Self::records_view(s).insert(r.name@, r@)[k] by {
            let j = choose|j: int| 0 <= j < s2.len() && (#[trigger] s2[j]).name@ == k;
            if j == i {
                assert(Self::records_view(s2)[s2[j].name@] == s2[j]@);
            } else {
                assert(Self::records_view(s2)[s2[j].name@] == s2[j]@);
                assert(s[j].name@ == k);
                assert(Self::records_view(s)[s[j].name@] == s[j]@);
                assert(s[j].name@ != r.name@);
            }
        }
        assert(Self::records_view(s2) =~= Self::records_view(s).insert(r.name@, r@));
    }

    /// Removing one record unbinds exactly its name.
    proof fn lemma_view_remove(s: Seq<ModuleRecord>, i: int)
        requires
            Self::unique_names(s),
            0 <= i < s.len(),
        ensures
            Self::unique_names(s.remove(i)),
            Self::records_view(s.remove(i)) == Self::records_view(s).remove(s[i].name@),
    {
        let s2 = s.remove(i);
        assert forall|a: int, b: int| 0 <= a < b < s2.len() implies s2[a].name@ != s2[b].name@ by {
            let a1 = if a < i { a } else { a + 1 };
            let b1 = if b < i { b } else { b + 1 };
            assert(s2[a] == s[a1] && s2[b] == s[b1]);
        }
        Self::lemma_records_view(s);
        Self::lemma_records_view(s2);
        assert forall|k: Seq<char>|
            Self::records_view(s2).contains_key(k) == Self::records_view(s).remove(
                s[i].name@,
            ).contains_key(k) by {
            if Self::records_view(s2).contains_key(k) {
                let j = choose|j: int| 0 <= j < s2.len() && (#[trigger] s2[j]).name@ == k;
                let j1 = if j < i { j } else { j + 1 };
                assert(s2[j] == s[j1]);
                assert(s[j1].name@ == k);
                assert(j1 != i ==> k != s[i].name@);
            }
            if Self::records_view(s).contains_key(k) && k != s[i].name@ {
                let j = choose|j: int| 0 <= j < s.len() && (#[trigger] s[j]).name@ == k;
                let j1 = if j < i { j } else { j - 1 };
                assert(s2[j1] == s[j]);
                assert(s2[j1].name@ == k);
            }
        }
        assert forall|k: Seq<char>|
            Self::records_view(s2).contains_key(k) implies Self::records_view(s2)[k]
            == Self::records_view(s).remove(s[i].name@)[k] by {
            let j = choose|j: int| 0 <= j < s2.len() && (#[trigger] s2[j]).name@ == k;
            let j1 = if j < i { j } else { j + 1 };
            assert(s2[j] == s[j1]);
            assert(Self::records_view(s2)[s2[j].name@] == s2[j]@);
            assert(Self::records_view(s)[s[j1].name@] == s[j1]@);
        }
        assert(Self::records_view(s2) =~= Self::records_view(s).remove(s[i].name@));
    }
}


/// Identifiers are never reused: every registered module's identifier lies
/// strictly below the next one to be assigned, so a freshly assigned
/// identifier differs from that of every module ever registered before.
pub open spec fn ids_below(lv: LoaderView) -> bool {
    forall|k: Seq<char>| lv.modules.contains_key(k) ==> (#[trigger] lv.modules[k]).id < lv.next_id
}

/// Why a candidate descriptor was rejected: the bytes, the negotiation
/// state and the host fingerprint decide the error exactly.
pub open spec fn spec_register_err(
    bytes: Seq<u8>,
    dv: DepsView,
    rustc: Seq<char>,
    e: Error,
) -> bool {
    let body = bytes.take(bytes.len() - 1);
    if !valid_utf8(body) {
        e == Error::InvalidUtf8
    } else if !spec_metadata_ok(decode_utf8(body)) {
        e == Error::InvalidMetadata
    } else {
        let out = spec_negotiate(spec_metadata_of(decode_utf8(body)), dv, rustc);
        out is Reject && spec_err_error(e, out->Reject_0, rustc)
    }
}

/// The qualified positive features of a master declaration: entries
/// starting with `-` are negative and skipped, `*` stays itself, and
/// anything else is prefixed with the dependency's name as given.
pub open spec fn spec_qualified(name: Seq<char>, fs: Seq<Seq<char>>) -> Seq<Seq<char>>
    decreases fs.len(),
{
    if fs.len() == 0 {
        Seq::empty()
    } else {
        let r = spec_qualified(name, fs.drop_last());
        if crate::strutil::spec_starts_with(fs.last(), "-"@) {
            r
        } else if fs.last() == "*"@ {
            r.push(fs.last())
        } else {
            r.push(name + fs.last())
        }
    }
}

/// The negative features of a master declaration: the entries starting
/// with `-`, kept verbatim.
pub open spec fn spec_negatives(fs: Seq<Seq<char>>) -> Seq<Seq<char>>
    decreases fs.len(),
{
    if fs.len() == 0 {
        Seq::empty()
    } else {
        let r = spec_negatives(fs.drop_last());
        if crate::strutil::spec_starts_with(fs.last(), "-"@) {
            r.push(fs.last())
        } else {
            r
        }
    }
}

impl ModuleLoader {
    /// A sound registry never reuses identifiers.
    pub proof fn lemma_ids_below(&self)
        requires
            self.wf(),
        ensures
            ids_below(self@),
    {
        Self::lemma_records_view(self.records@);
        assert forall|k: Seq<char>|
            self@.modules.contains_key(k) implies (#[trigger] self@.modules[k]).id
            < self@.next_id by {
            let i = choose|i: int|
                0 <= i < self.records@.len() && (#[trigger] self.records@[i]).name@ == k;
            assert(self@.modules[self.records@[i].name@] == self.records@[i]@);
        }
    }

    /// The virtual library table, as names and symbol tables.
    pub closed spec fn builtins_view(&self) -> Seq<(Seq<char>, Seq<(Seq<char>, usize)>)> {
        self.builtins@.map_values(|l: VirtualLibrary| (l.name_view(), l.symbols_view()))
    }

    /// A fresh registry over the given virtual library table.
    pub fn new(builtins: Vec<VirtualLibrary>) -> (r: ModuleLoader)
        ensures
            r.wf(),
            r@.modules == Map::<Seq<char>, ModView>::empty(),
            r@.next_id == 0,
            r@.paths == Seq::<Seq<char>>::empty(),
            r@.deps.master == Map::<Seq<char>, crate::deps::DepSpec>::empty(),
            r@.deps.deps_by_module == Map::<Seq<char>, Map<Seq<char>, crate::deps::DepSpec>>::empty(),
            r@.deps.module_by_dep == Map::<Seq<char>, Seq<Seq<char>>>::empty(),
            r@.deps.module_version == Map::<Seq<char>, Seq<char>>::empty(),
            r.builtins_view() == builtins@.map_values(
                |l: VirtualLibrary| (l.name_view(), l.symbols_view()),
            ),
    {
        let r = ModuleLoader {
            paths: Vec::new(),
            records: Vec::new(),
            deps: DepsMap::new(),
            builtins,
            last_module_id: 0,
        };
        proof {
            assert(r@.paths =~= Seq::<Seq<char>>::empty());
        }
        r
    }

    /// Appends a directory to the search path list.
    pub fn add_search_path(&mut self, path: String)
        requires
            old(self).wf(),
        ensures
            final (self).wf(),
            final (self)@.paths == old(self)@.paths.push(path@),
            final (self)@.modules == old(self)@.modules,
            final (self)@.next_id == old(self)@.next_id,
            final (self)@.deps == old(self)@.deps,
            final (self).builtins_view() == old(self).builtins_view(),
    {
        self.paths.push(path);
        proof {
            assert(self@.paths =~= old(self)@.paths.push(self.paths@.last()@));
        }
    }

    /// The configured search paths, in order.
    pub fn search_paths(&self) -> (r: &Vec<String>)
        ensures
            r@.map_values(|p: String| p@) == self@.paths,
    {
        &self.paths
    }

    /// Declares a public-facing dependency of the host itself: its exact
    /// version and its features, where a leading `-` marks a negative
    /// feature, `*` accepts any subset, and any other entry is qualified
    /// with the dependency's name. The recorded name is normalized.
    #[verifier::loop_isolation(false)]
    pub fn add_public_dependency(&mut self, name: &str, version: &str, features: &Vec<String>)
        requires
            old(self).wf(),
        ensures
            final (self).wf(),
            final (self)@.deps.master == old(self)@.deps.master.insert(
                spec_normalize_name(name@),
                crate::deps::DepSpec {
                    version: version@,
                    features: spec_qualified(name@, features@.map_values(|f: String| f@)),
                    negative_features: spec_negatives(features@.map_values(|f: String| f@)),
                },
            ),
            final (self)@.deps.deps_by_module == old(self)@.deps.deps_by_module,
            final (self)@.deps.module_by_dep == old(self)@.deps.module_by_dep,
            final (self)@.deps.module_version == old(self)@.deps.module_version,
            final (self)@.modules == old(self)@.modules,
            final (self)@.next_id == old(self)@.next_id,
            final (self)@.paths == old(self)@.paths,
            final (self).builtins_view() == old(self).builtins_view(),
    {
        let ghost fviews = features@.map_values(|f: String| f@);
        let mut pos: Vec<String> = Vec::new();
        let mut neg: Vec<String> = Vec::new();
        let n: usize = features.len();
        let mut i: usize = 0;
        proof {
            assert(fviews.take(0int) =~= Seq::<Seq<char>>::empty());
        }
        while i < n
            invariant
                0 <= i <= n,
                n == fviews.len(),
                features@.map_values(|f: String| f@) == fviews,
                pos@.map_values(|f: String| f@) == spec_qualified(name@, fviews.take(i as int)),
                neg@.map_values(|f: String| f@) == spec_negatives(fviews.take(i as int)),
            decreases n - i,
        {
            proof {
                assert(fviews[i as int] == features@[i as int]@);
                assert(fviews.take(i + 1 as int).drop_last() =~= fviews.take(i as int));
                assert(fviews.take(i + 1 as int).last() == fviews[i as int]);
            }
            let f = &features[i];
            if crate::strutil::starts_with(f.as_str(), "-") {
                let ghost oldn = neg@.map_values(|f: String| f@);
                neg.push(f.clone());
                proof {
                    assert(neg@.map_values(|f: String| f@) =~= oldn.push(fviews[i as int]));
                }
            } else if str_eq(f.as_str(), "*") {
                let ghost oldp = pos@.map_values(|f: String| f@);
                pos.push(f.clone());
                proof {
                    assert(pos@.map_values(|f: String| f@) =~= oldp.push(fviews[i as int]));
                }
            } else {
                let ghost oldp = pos@.map_values(|f: String| f@);
                let qualified = String::from_str(name).concat(f.as_str());
                pos.push(qualified);
                proof {
                    assert(pos@.map_values(|f: String| f@) =~= oldp.push(
                        name@ + fviews[i as int],
                    ));
                }
            }
            i = i + 1;
        }
        proof {
            assert(fviews.take(n as int) =~= fviews);
        }
        let norm = normalize_name(name);
        self.deps.add_dep(
            norm,
            crate::deps::Dependency {
                version: String::from_str(version),
                features: pos,
                negative_features: neg,
            },
        );
    }

    /// The identifier of the loaded non-builtin module of this name, after
    /// normalization; a name registered as a builtin is never returned.
    pub fn get_module(&self, name: &str) -> (r: Option<usize>)
        requires
            self.wf(),
        ensures
            ({
                let k = spec_normalize_name(name@);
                match r {
                    Some(id) => self@.modules.contains_key(k) && !self@.modules[k].builtin && id
                        as nat == self@.modules[k].id,
                    None => !self@.modules.contains_key(k) || self@.modules[k].builtin,
                }
            }),
    {
        let norm = normalize_name(name);
        match self.find_record(norm.as_str()) {
            Some(i) => {
                if self.records[i].builtin {
                    None
                } else {
                    Some(self.records[i].id)
                }
            },
            None => None,
        }
    }

    /// The identifier of the loaded builtin module of this name, after
    /// normalization; a name registered as an OS-backed module is never
    /// returned.
    pub fn get_builtin(&self, name: &str) -> (r: Option<usize>)
        requires
            self.wf(),
        ensures
            ({
                let k = spec_normalize_name(name@);
                match r {
                    Some(id) => self@.modules.contains_key(k) && self@.modules[k].builtin && id
                        as nat == self@.modules[k].id,
                    None => !self@.modules.contains_key(k) || !self@.modules[k].builtin,
                }
            }),
    {
        let norm = normalize_name(name);
        match self.find_record(norm.as_str()) {
            Some(i) => {
                if self.records[i].builtin {
                    Some(self.records[i].id)
                } else {
                    None
                }
            },
            None => None,
        }
    }

    /// The names of every registered module, without duplicates: exactly
    /// the registry's domain, in registration order. Teardown walks this
    /// list and unloads each entry.
    pub fn loaded_names(&self) -> (r: Vec<String>)
        requires
            self.wf(),
        ensures
            r@.map_values(|s: String| s@).no_duplicates(),
            forall|i: int|
                0 <= i < r@.len() ==> self@.modules.contains_key(#[trigger] r@[i]@),
            forall|k: Seq<char>|
                self@.modules.contains_key(k) ==> r@.map_values(|s: String| s@).contains(k),
    {
        proof {
            Self::lemma_records_view(self.records@);
        }
        let mut r: Vec<String> = Vec::new();
        let n: usize = self.records.len();
        let mut i: usize = 0;
        while i < n
            invariant
                0 <= i <= n,
                self.wf(),
                n == self.records@.len(),
                r@.len() == i,
                forall|j: int| 0 <= j < i ==> r@[j]@ == (#[trigger] self.records@[j]).name@,
            decreases n - i,
        {
            r.push(self.records[i].name.clone());
            i = i + 1;
        }
        proof {
            Self::lemma_records_view(self.records@);
            let view = r@.map_values(|s: String| s@);
            assert forall|a: int, b: int| 0 <= a < b < view.len() implies view[a] != view[b] by {
                assert(view[a] == self.records@[a].name@);
                assert(view[b] == self.records@[b].name@);
            }
            assert(view.no_duplicates());
            assert forall|i2: int|
                0 <= i2 < r@.len() implies self@.modules.contains_key(#[trigger] r@[i2]@) by {
                assert(r@[i2]@ == self.records@[i2].name@);
            }
            assert forall|k: Seq<char>|
                self@.modules.contains_key(k) implies view.contains(k) by {
                let j = choose|j: int|
                    0 <= j < self.records@.len() && (#[trigger] self.records@[j]).name@ == k;
                assert(view[j] == k);
            }
        }
        r
    }

    /// One metadata value of a loaded module, whatever its kind.
    pub fn module_metadata_key(&self, name: &str, key: &str) -> (r: Option<String>)
        requires
            self.wf(),
        ensures
            ({
                let k = spec_normalize_name(name@);
                match r {
                    Some(v) => self@.modules.contains_key(k) && self@.modules[k].metadata.contains_key(
                        key@,
                    ) && v@ == self@.modules[k].metadata[key@],
                    None => !self@.modules.contains_key(k) || !self@.modules[k].metadata.contains_key(
                        key@,
                    ),
                }
            }),
    {
        let norm = normalize_name(name);
        match self.find_record(norm.as_str()) {
            Some(i) => match self.records[i].metadata.get(key) {
                Some(v) => Some(String::from_str(v.as_str())),
                None => None,
            },
            None => None,
        }
    }

    /// A repeated load of an already registered name: when the registered
    /// kind matches, the reference count goes up by one and the identifier
    /// comes back; nothing else changes.
    pub fn try_ref(&mut self, name: &str, builtin: bool) -> (r: RefResult)
        requires
            old(self).wf(),
            old(self)@.modules.contains_key(spec_normalize_name(name@)) ==> old(
                self,
            )@.modules[spec_normalize_name(name@)].ref_count + 1 < 0xffff_ffff_ffff_ffff,
        ensures
            final (self).wf(),
            final (self)@.next_id == old(self)@.next_id,
            final (self)@.deps == old(self)@.deps,
            final (self)@.paths == old(self)@.paths,
            final (self).builtins_view() == old(self).builtins_view(),
            ({
                let k = spec_normalize_name(name@);
                let m = old(self)@.modules;
                match r {
                    RefResult::Absent => !m.contains_key(k) && final (self)@.modules == m,
                    RefResult::WrongKind => m.contains_key(k) && m[k].builtin != builtin
                        && final (self)@.modules == m,
                    RefResult::Incremented(id) => {
                        &&& m.contains_key(k)
                        &&& m[k].builtin == builtin
                        &&& id as nat == m[k].id
                        &&& final (self)@.modules == m.insert(
                            k,
                            ModView {
                                id: m[k].id,
                                ref_count: m[k].ref_count + 1,
                                builtin: m[k].builtin,
                                metadata: m[k].metadata,
                            },
                        )
                    },
                }
            }),
    {
        let norm = normalize_name(name);
        match self.find_record(norm.as_str()) {
            Some(i) => {
                if self.records[i].builtin != builtin {
                    RefResult::WrongKind
                } else {
                    let id = self.records[i].id;
                    let ghost old_records = self.records@;
                    let rec = vstd::std_specs::vec::vec_index_mut(&mut self.records, i);
                    rec.ref_count = rec.ref_count + 1;
                    proof {
                        Self::lemma_view_update(
                            old_records,
                            i as int,
                            self.records@[i as int],
                        );
                    }
                    RefResult::Incremented(id)
                }
            },
            None => RefResult::Absent,
        }
    }

    /// Registers a new module from its raw metadata descriptor: the bytes
    /// are parsed, the candidate negotiated, and on success a fresh
    /// identifier is assigned and the module enters the registry with one
    /// reference. On failure nothing changes and the error says exactly
    /// why.
    pub fn register_module(&mut self, name: &str, descriptor: &[u8], builtin: bool, rustc: &str)
        -> (r: Result<usize, Error>)
        requires
            old(self).wf(),
            !old(self)@.modules.contains_key(spec_normalize_name(name@)),
            descriptor@.len() >= 1,
            old(self)@.next_id < usize::MAX,
        ensures
            final (self).wf(),
            final (self)@.paths == old(self)@.paths,
            final (self).builtins_view() == old(self).builtins_view(),
            ({
                let k = spec_normalize_name(name@);
                let body = descriptor@.take(descriptor@.len() - 1);
                match r {
                    Ok(id) => {
                        &&& valid_utf8(body)
                        &&& spec_metadata_ok(decode_utf8(body))
                        &&& ({
                            let meta = spec_metadata_of(decode_utf8(body));
                            let out = spec_negotiate(meta, old(self)@.deps, rustc@);
                            &&& (out is Skip || out is Accept)
                            &&& (out is Skip ==> final (self)@.deps == old(self)@.deps)
                            &&& (out is Accept ==> final (self)@.deps == spec_commit(
                                old(self)@.deps,
                                meta["NAME"@],
                                meta["VERSION"@],
                                meta["DEPS"@],
                                meta["FEATURES"@],
                            ))
                            &&& id as nat == old(self)@.next_id
                            &&& (ids_below(old(self)@) ==> forall|k: Seq<char>|
                                old(self)@.modules.contains_key(k) ==> (#[trigger] old(
                                    self,
                                )@.modules[k]).id != id as nat)
                            &&& final (self)@.next_id == old(self)@.next_id + 1
                            &&& final (self)@.modules == old(self)@.modules.insert(
                                k,
                                ModView {
                                    id: id as nat,
                                    ref_count: 1,
                                    builtin: builtin,
                                    metadata: meta,
                                },
                            )
                        })
                    },
                    Err(e) => {
                        &&& spec_register_err(descriptor@, old(self)@.deps, rustc@, e)
                        &&& final (self)@ == old(self)@
                    },
                }
            }),
    {
        let norm = normalize_name(name);
        let metadata = match parse_metadata(descriptor) {
            Ok(m) => m,
            Err(e) => {
                return Result::Err(e);
            },
        };
        match crate::deps::check_metadata(&metadata, &mut self.deps, rustc) {
            Ok(()) => {},
            Err(e) => {
                return Result::Err(e);
            },
        }
        let id = self.last_module_id;
        self.last_module_id = self.last_module_id + 1;
        let ghost old_records = self.records@;
        self.records.push(
            ModuleRecord { id, name: norm, metadata, ref_count: 1, builtin },
        );
        proof {
            assert(self.records@.drop_last() =~= old_records);
            Self::lemma_records_view(old_records);
            if exists|j: int|
                0 <= j < old_records.len() && (#[trigger] old_records[j]).name@
                    == spec_normalize_name(name@) {
                assert(false);
            }
        }
        Result::Ok(id)
    }

    /// Releases one reference to a loaded module: the count goes down by
    /// one, and at zero the module leaves the registry so its close
    /// protocol can run. An unknown name is an error, carrying the
    /// normalized name.
    pub fn unload(&mut self, name: &str) -> (r: Result<UnloadOutcome, Error>)
        requires
            old(self).wf(),
        ensures
            final (self).wf(),
            final (self)@.next_id == old(self)@.next_id,
            final (self)@.deps == old(self)@.deps,
            final (self)@.paths == old(self)@.paths,
            final (self).builtins_view() == old(self).builtins_view(),
            ({
                let k = spec_normalize_name(name@);
                let m = old(self)@.modules;
                match r {
                    Ok(UnloadOutcome::StillHeld(id, rc)) => {
                        &&& m.contains_key(k)
                        &&& m[k].ref_count >= 2
                        &&& id as nat == m[k].id
                        &&& rc as nat == (m[k].ref_count - 1) as nat
                        &&& final (self)@.modules == m.insert(
                            k,
                            ModView {
                                id: m[k].id,
                                ref_count: (m[k].ref_count - 1) as nat,
                                builtin: m[k].builtin,
                                metadata: m[k].metadata,
                            },
                        )
                    },
                    Ok(UnloadOutcome::Finalized(id, builtin)) => {
                        &&& m.contains_key(k)
                        &&& m[k].ref_count == 1
                        &&& id as nat == m[k].id
                        &&& builtin == m[k].builtin
                        &&& final (self)@.modules == m.remove(k)
                    },
                    Err(e) => {
                        &&& !m.contains_key(k)
                        &&& (e matches Error::NotFound(s) && s@ == k)
                        &&& final (self)@.modules == m
                    },
                }
            }),
    {
        let norm = normalize_name(name);
        match self.find_record(norm.as_str()) {
            None => Result::Err(Error::NotFound(norm)),
            Some(i) => {
                if self.records[i].ref_count == 1 {
                    let ghost old_records = self.records@;
                    let rec = self.records.remove(i);
                    proof {
                        Self::lemma_view_remove(old_records, i as int);
                    }
                    Result::Ok(UnloadOutcome::Finalized(rec.id, rec.builtin))
                } else {
                    let id = self.records[i].id;
                    let rc = self.records[i].ref_count - 1;
                    let ghost old_records = self.records@;
                    let rec = vstd::std_specs::vec::vec_index_mut(&mut self.records, i);
                    rec.ref_count = rec.ref_count - 1;
                    proof {
                        Self::lemma_view_update(
                            old_records,
                            i as int,
                            self.records@[i as int],
                        );
                    }
                    Result::Ok(UnloadOutcome::StillHeld(id, rc))
                }
            },
        }
    }
}


/// The name of the exported descriptor constant for a module: the magic
/// prefix and the upper-cased, normalized module name.
pub fn descriptor_symbol(name: &str) -> (r: String)
    ensures
        r@ == "BP3D_OS_MODULE_"@ + spec_upper(spec_normalize_name(name@)),
{
    let norm = normalize_name(name);
    let upper = to_upper(norm.as_str());
    String::from_str("BP3D_OS_MODULE_").concat(upper.as_str())
}

/// The name of a module's mandatory init hook.
pub fn init_symbol(name: &str) -> (r: String)
    ensures
        r@ == "bp3d_os_module_"@ + name@ + "_init"@,
{
    String::from_str("bp3d_os_module_").concat(name).concat("_init")
}

/// The name of a module's mandatory uninit hook.
pub fn uninit_symbol(name: &str) -> (r: String)
    ensures
        r@ == "bp3d_os_module_"@ + name@ + "_uninit"@,
{
    String::from_str("bp3d_os_module_").concat(name).concat("_uninit")
}

/// The name of a module's optional open hook.
pub fn open_symbol(name: &str) -> (r: String)
    ensures
        r@ == "bp3d_os_module_"@ + name@ + "_open"@,
{
    String::from_str("bp3d_os_module_").concat(name).concat("_open")
}

/// The name of a module's optional close hook.
pub fn close_symbol(name: &str) -> (r: String)
    ensures
        r@ == "bp3d_os_module_"@ + name@ + "_close"@,
{
    String::from_str("bp3d_os_module_").concat(name).concat("_close")
}

/// The name of a module's optional diagnostics wiring hook.
pub fn debug_init_symbol(name: &str) -> (r: String)
    ensures
        r@ == "bp3d_os_module_"@ + name@ + "_init_bp3d_debug"@,
{
    String::from_str("bp3d_os_module_").concat(name).concat("_init_bp3d_debug")
}

/// The two file names a module may carry on disk, tried in this order.
pub fn module_file_names(name: &str, ext: &str) -> (r: (String, String))
    ensures
        r.0@ == name@ + "."@ + ext@,
        r.1@ == "lib"@ + name@ + "."@ + ext@,
{
    let plain = String::from_str(name).concat(".").concat(ext);
    let lib = String::from_str("lib").concat(name).concat(".").concat(ext);
    (plain, lib)
}

/// The first builtin with the given name in a builtin table.
pub open spec fn spec_find_builtin(
    bs: Seq<(Seq<char>, Seq<(Seq<char>, usize)>)>,
    name: Seq<char>,
) -> Option<int>
    decreases bs.len(),
{
    if bs.len() == 0 {
        None
    } else if bs[0].0 == name {
        Some(0int)
    } else {
        match spec_find_builtin(bs.skip(1), name) {
            Some(i) => Some(i + 1),
            None => None,
        }
    }
}

impl ModuleLoader {
    /// The statically registered virtual library of this normalized name,
    /// first match in registration order; the filesystem and the process
    /// image are never consulted here.
    pub fn find_builtin(&self, name: &str) -> (r: Option<&VirtualLibrary>)
        ensures
            ({
                let k = spec_normalize_name(name@);
                match r {
                    Some(lib) => {
                        &&& spec_find_builtin(self.builtins_view(), k) is Some
                        &&& lib.name_view() == k
                        &&& lib.symbols_view() == self.builtins_view()[spec_find_builtin(
                            self.builtins_view(),
                            k,
                        )->Some_0].1
                    },
                    None => spec_find_builtin(self.builtins_view(), k) is None,
                }
            }),
    {
        let norm = normalize_name(name);
        let ghost bs = self.builtins_view();
        let n: usize = self.builtins.len();
        let mut i: usize = 0;
        proof {
            assert(bs.skip(0int) =~= bs);
        }
        while i < n
            invariant
                0 <= i <= n,
                n == bs.len(),
                bs == self.builtins_view(),
                norm@ == spec_normalize_name(name@),
                spec_find_builtin(bs, norm@) == match spec_find_builtin(
                    bs.skip(i as int),
                    norm@,
                ) {
                    Some(j) => Some(j + i),
                    None => None::<int>,
                },
            decreases n - i,
        {
            proof {
                assert(bs[i as int] == (
                    self.builtins@[i as int].name_view(),
                    self.builtins@[i as int].symbols_view(),
                ));
                assert(bs.skip(i as int)[0] == bs[i as int]);
                assert(bs.skip(i as int).skip(1) =~= bs.skip(i + 1 as int));
            }
            if str_eq(self.builtins[i].name(), norm.as_str()) {
                return Some(&self.builtins[i]);
            }
            i = i + 1;
        }
        proof {
            assert(bs.skip(n as int) =~= Seq::<(Seq<char>, Seq<(Seq<char>, usize)>)>::empty());
        }
        None
    }
}

// == The reference-count law ==

/// The per-name effect of the registry's operations on one module's state:
/// `None` is unregistered. A load registers with one reference or
/// increments; an unload decrements and finalizes at zero. This is exactly
/// what `register_module`, `try_ref` and `unload` ensure for the touched
/// name.
pub open spec fn spec_count_op(st: Option<nat>, load: bool) -> Option<nat> {
    match st {
        None => if load {
            Some(1nat)
        } else {
            None
        },
        Some(rc) => if load {
            Some((rc + 1) as nat)
        } else if rc == 1 {
            None
        } else {
            Some((rc - 1) as nat)
        },
    }
}

/// A whole sequence of loads (`true`) and unloads (`false`) applied to one
/// module's state.
pub open spec fn spec_apply_ops(st: Option<nat>, ops: Seq<bool>) -> Option<nat>
    decreases ops.len(),
{
    if ops.len() == 0 {
        st
    } else {
        spec_apply_ops(spec_count_op(st, ops[0]), ops.skip(1))
    }
}

/// How many loads a sequence holds.
pub open spec fn spec_loads(ops: Seq<bool>) -> int {
    ops.filter(|b: bool| b).len() as int
}

/// How many unloads a sequence holds.
pub open spec fn spec_unloads(ops: Seq<bool>) -> int {
    ops.len() - spec_loads(ops)
}

proof fn lemma_loads_skip(ops: Seq<bool>)
    requires
        ops.len() >= 1,
    ensures
        spec_loads(ops) == spec_loads(ops.skip(1)) + (if ops[0] { 1int } else { 0int }),
    decreases ops.len(),
{
    reveal(Seq::filter);
    if ops.len() == 1 {
        assert(ops.skip(1) =~= Seq::<bool>::empty());
        assert(ops.drop_last() =~= Seq::<bool>::empty());
        assert(ops.last() == ops[0]);
    } else {
        lemma_loads_skip(ops.drop_last());
        assert(ops.skip(1).drop_last() =~= ops.drop_last().skip(1));
        assert(ops.skip(1).last() == ops.last());
        assert(ops.drop_last()[0] == ops[0]);
    }
}

/// *Exact reference-count symmetry.* Starting from a module whose counter
/// stands at `c`, a sequence of loads and unloads along which the counter
/// never reaches zero before the end leaves the module registered exactly
/// when the loads outnumber the unloads, with the counter at the exact
/// difference; when they balance, the final operation is the one that
/// finalizes the module.
pub proof fn lemma_reference_count_symmetry(ops: Seq<bool>, c: nat)
    requires
        c >= 1,
        forall|p: int|
            0 < p < ops.len() ==> c + spec_loads(#[trigger] ops.take(p)) - spec_unloads(
                ops.take(p),
            ) >= 1,
        c + spec_loads(ops) - spec_unloads(ops) >= 0,
    ensures
        spec_apply_ops(Some(c), ops) == (if c + spec_loads(ops) - spec_unloads(ops) >= 1 {
            Some((c + spec_loads(ops) - spec_unloads(ops)) as nat)
        } else {
            None::<nat>
        }),
    decreases ops.len(),
{
    reveal(Seq::filter);
    if ops.len() == 0 {
        assert(ops.filter(|b: bool| b).len() == 0);
    } else {
        lemma_loads_skip(ops);
        let rest = ops.skip(1);
        let c1: nat = if ops[0] {
            (c + 1) as nat
        } else {
            (c - 1) as nat
        };
        if ops.len() == 1 {
            assert(rest =~= Seq::<bool>::empty());
            assert(spec_loads(rest) == 0);
            assert(spec_apply_ops(spec_count_op(Some(c), ops[0]), rest) == spec_count_op(
                Some(c),
                ops[0],
            ));
            if ops[0] {
                assert(spec_apply_ops(Some(c), ops) == Some((c + 1) as nat));
            } else if c == 1 {
                assert(spec_apply_ops(Some(c), ops) == None::<nat>);
            } else {
                assert(spec_apply_ops(Some(c), ops) == Some((c - 1) as nat));
            }
        } else {
            if !ops[0] {
                assert(ops.take(1).len() == 1);
                assert(ops.take(1)[0] == ops[0]);
                lemma_loads_skip(ops.take(1));
                assert(ops.take(1).skip(1) =~= Seq::<bool>::empty());
                assert(spec_loads(ops.take(1)) == 0);
                assert(c + spec_loads(ops.take(1)) - spec_unloads(ops.take(1)) >= 1);
                assert(c >= 2);
            }
            assert(c1 >= 1);
            assert forall|p: int|
                0 < p < rest.len() implies c1 + spec_loads(#[trigger] rest.take(p))
                - spec_unloads(rest.take(p)) >= 1 by {
                assert(ops.take(p + 1).skip(1) =~= rest.take(p));
                lemma_loads_skip(ops.take(p + 1));
                assert(ops.take(p + 1)[0] == ops[0]);
                assert(c + spec_loads(ops.take(p + 1)) - spec_unloads(ops.take(p + 1)) >= 1);
            }
            lemma_reference_count_symmetry(rest, c1);
            assert(spec_count_op(Some(c), ops[0]) == Some(c1));
        }
    }
}


/// *Idempotent increment.* A repeated load of a held module raises its one
/// counter, and the following unload lowers it back without ever touching
/// zero: after two loads and one unload the module is still registered, so
/// its close protocol has not run. That the repeated load returns the same
/// identifier is part of what `try_ref` ensures.
pub proof fn lemma_idempotent_increment(c: nat)
    requires
        c >= 1,
    ensures
        spec_count_op(Some(c), true) == Some((c + 1) as nat),
        spec_apply_ops(Some(c), seq![true, false]) == Some(c),
{
    let ops = seq![true, false];
    assert(ops.skip(1) =~= seq![false]);
    assert(ops.skip(1).skip(1) =~= Seq::<bool>::empty());
    assert(spec_apply_ops(Some((c + 1) as nat), seq![false]) == spec_apply_ops(
        Some(c),
        Seq::<bool>::empty(),
    ));
}

} // verus!

verus! {

/// The hook symbols one module's open and close protocols resolve, and
/// whether the mandatory hooks apply.
pub struct HookPlan {
    /// The name the hooks are built from: the metadata NAME, or the load
    /// name when the metadata carries none.
    pub name: String,
    /// Whether the module is managed: only then are the diagnostics and
    /// init hooks consulted, and init and uninit are mandatory.
    pub managed: bool,
    /// The optional diagnostics wiring hook of a managed module.
    pub debug_init: String,
    /// The mandatory init hook of a managed module.
    pub init: String,
    /// The mandatory uninit hook of a managed module.
    pub uninit: String,
    /// The optional open hook of any module.
    pub open: String,
    /// The optional close hook of any module.
    pub close: String,
}

/// Builds the hook plan from a module's metadata TYPE and NAME values and
/// its load name: a module without a TYPE key cannot be opened or closed,
/// a module is managed exactly when its TYPE is the managed kind, and
/// every hook is named after the metadata NAME, falling back to the load
/// name.
pub fn plan_hooks(ty: Option<&str>, meta_name: Option<&str>, load_name: &str) -> (r: Result<
    HookPlan,
    Error,
>)
    ensures
        match r {
            Ok(plan) => {
                &&& ty is Some
                &&& plan.managed == (ty->Some_0@ == "RUST"@)
                &&& plan.name@ == (match meta_name {
                    Some(n) => n@,
                    None => load_name@,
                })
                &&& plan.debug_init@ == "bp3d_os_module_"@ + plan.name@ + "_init_bp3d_debug"@
                &&& plan.init@ == "bp3d_os_module_"@ + plan.name@ + "_init"@
                &&& plan.uninit@ == "bp3d_os_module_"@ + plan.name@ + "_uninit"@
                &&& plan.open@ == "bp3d_os_module_"@ + plan.name@ + "_open"@
                &&& plan.close@ == "bp3d_os_module_"@ + plan.name@ + "_close"@
            },
            Err(e) => ty is None && e == Error::InvalidMetadata,
        },
{
    let ty = match ty {
        Some(t) => t,
        None => {
            return Result::Err(Error::InvalidMetadata);
        },
    };
    let managed = str_eq(ty, "RUST");
    let name = match meta_name {
        Some(n) => String::from_str(n),
        None => String::from_str(load_name),
    };
    let debug_init = debug_init_symbol(name.as_str());
    let init = init_symbol(name.as_str());
    let uninit = uninit_symbol(name.as_str());
    let open = open_symbol(name.as_str());
    let close = close_symbol(name.as_str());
    Result::Ok(HookPlan { name, managed, debug_init, init, uninit, open, close })
}

/// The open protocol's one hard rule: a managed module whose mandatory
/// init hook did not resolve cannot be opened; everything else passes.
pub fn require_init(managed: bool, resolved: bool) -> (r: Result<(), Error>)
    ensures
        r is Ok <==> (!managed || resolved),
        r is Err ==> (r matches Err(e) && e == Error::MissingModuleInitForRust),
{
    if managed && !resolved {
        Result::Err(Error::MissingModuleInitForRust)
    } else {
        Result::Ok(())
    }
}

/// The close protocol's mirror rule: a managed module that is not a
/// builtin must resolve its mandatory uninit hook; everything else
/// passes.
pub fn require_uninit(managed: bool, builtin: bool, resolved: bool) -> (r: Result<(), Error>)
    ensures
        r is Ok <==> (!managed || builtin || resolved),
        r is Err ==> (r matches Err(e) && e == Error::MissingModuleInitForRust),
{
    if managed && !builtin && !resolved {
        Result::Err(Error::MissingModuleInitForRust)
    } else {
        Result::Ok(())
    }
}

} // verus!
