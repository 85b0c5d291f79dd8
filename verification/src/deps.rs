//! The dependency and feature negotiation engine: a table of master
//! constraints, the dependency tables of every accepted module, a reverse
//! index from dependency names to the modules that declare them, and the
//! compatibility checks a candidate module must pass before it is committed.

use vstd::prelude::*;

use crate::assoc::Table;
use crate::error::{Error, IncompatibleDependency, IncompatibleRustc};
use crate::metadata::{parse_kv, spec_kv, spec_kv_list, spec_kv_list_ok, Metadata, Value};
use crate::strutil::{spec_split, spec_starts_with, starts_with, str_eq};

verus! {

/// The mathematical image of one dependency constraint.
pub ghost struct DepSpec {
    /// The exact version required.
    pub version: Seq<char>,
    /// The qualified features required, in declaration order; `*` accepts
    /// any feature subset from its position on.
    pub features: Seq<Seq<char>>,
    /// Qualified features that must not be enabled.
    pub negative_features: Seq<Seq<char>>,
}

/// One dependency constraint: an exact version, the qualified features it
/// was compiled with, and the qualified features it must not see.
pub struct Dependency {
    /// The exact version required.
    pub version: String,
    /// The qualified features required, in declaration order.
    pub features: Vec<String>,
    /// Qualified features that must not be enabled (master side only).
    pub negative_features: Vec<String>,
}

impl View for Dependency {
    type V = DepSpec;

    open spec fn view(&self) -> DepSpec {
        DepSpec {
            version: self.version@,
            features: self.features@.map_values(|s: String| s@),
            negative_features: self.negative_features@.map_values(|s: String| s@),
        }
    }
}

/// A list of module names.
pub struct NameList(Vec<String>);

impl View for NameList {
    type V = Seq<Seq<char>>;

    closed spec fn view(&self) -> Seq<Seq<char>> {
        self.0@.map_values(|s: String| s@)
    }
}

impl NameList {
    /// A list holding one name.
    pub fn singleton(name: String) -> (r: NameList)
        ensures
            r@ =~= seq![name@],
    {
        let mut v: Vec<String> = Vec::new();
        v.push(name);
        NameList(v)
    }

    /// A copy of this list with one more name at the end.
    pub fn clone_push(&self, name: String) -> (r: NameList)
        ensures
            r@ =~= self@.push(name@),
    {
        let mut v: Vec<String> = Vec::new();
        let n: usize = self.0.len();
        let mut i: usize = 0;
        while i < n
            invariant
                0 <= i <= n,
                n == self.0@.len(),
                v@.len() == i,
                forall|j: int| 0 <= j < i ==> v@[j]@ == self.0@[j]@,
            decreases n - i,
        {
            v.push(self.0[i].clone());
            i = i + 1;
        }
        v.push(name);
        let r = NameList(v);
        proof {
            assert forall|j: int| 0 <= j < r@.len() implies r@[j] == self@.push(name@)[j] by {
                assert(r@[j] == r.0@[j]@);
            }
        }
        r
    }

    /// The names, for walking outside the table.
    pub fn names(&self) -> (r: &Vec<String>)
        ensures
            r@.map_values(|s: String| s@) == self@,
    {
        &self.0
    }
}

/// The mathematical image of the whole negotiation state.
pub ghost struct DepsView {
    /// Constraints declared by the hosting application itself.
    pub master: Map<Seq<char>, DepSpec>,
    /// Each accepted module's own dependency table.
    pub deps_by_module: Map<Seq<char>, Map<Seq<char>, DepSpec>>,
    /// For each dependency name, the modules that declare it.
    pub module_by_dep: Map<Seq<char>, Seq<Seq<char>>>,
    /// Each accepted module's own version.
    pub module_version: Map<Seq<char>, Seq<char>>,
}

/// The dependency table recorded for module `m`, or an empty one when none
/// was recorded.
pub open spec fn table_for(dv: DepsView, m: Seq<char>) -> Map<Seq<char>, DepSpec> {
    if dv.deps_by_module.contains_key(m) {
        dv.deps_by_module[m]
    } else {
        Map::<Seq<char>, DepSpec>::empty()
    }
}

/// The negotiation state: master constraints, the commit log of accepted
/// modules, and the reverse index used for cross-module checks.
pub struct DepsMap {
    deps_by_module: Table<Table<Dependency>>,
    module_by_dep: Table<NameList>,
    module_version: Table<String>,
    master: Table<Dependency>,
    dummy: Table<Dependency>,
}

impl View for DepsMap {
    type V = DepsView;

    closed spec fn view(&self) -> DepsView {
        DepsView {
            master: self.master@,
            deps_by_module: self.deps_by_module@,
            module_by_dep: self.module_by_dep@,
            module_version: self.module_version@,
        }
    }
}

impl DepsMap {
    /// Accepted modules always have a recorded version, and the spare empty
    /// table really is empty.
    pub closed spec fn wf(&self) -> bool {
        &&& forall|k: Seq<char>|
            self.deps_by_module@.contains_key(k) ==> self.module_version@.contains_key(k)
        &&& self.dummy@ == Map::<Seq<char>, DepSpec>::empty()
    }

    /// An empty negotiation state.
    pub fn new() -> (r: DepsMap)
        ensures
            r.wf(),
            r@.master == Map::<Seq<char>, DepSpec>::empty(),
            r@.deps_by_module == Map::<Seq<char>, Map<Seq<char>, DepSpec>>::empty(),
            r@.module_by_dep == Map::<Seq<char>, Seq<Seq<char>>>::empty(),
            r@.module_version == Map::<Seq<char>, Seq<char>>::empty(),
    {
        let r = DepsMap {
            deps_by_module: Table::new(),
            module_by_dep: Table::new(),
            module_version: Table::new(),
            master: Table::new(),
            dummy: Table::new(),
        };
        r
    }

    /// Declares a master dependency constraint.
    pub fn add_dep(&mut self, name: String, dep: Dependency)
        requires
            old(self).wf(),
        ensures
            final (self).wf(),
            final (self)@.master == old(self)@.master.insert(name@, dep@),
            final (self)@.deps_by_module == old(self)@.deps_by_module,
            final (self)@.module_by_dep == old(self)@.module_by_dep,
            final (self)@.module_version == old(self)@.module_version,
    {
        self.master.insert(name, dep);
    }

    /// The whole master table.
    pub fn master_table(&self) -> (r: &Table<Dependency>)
        ensures
            r@ == self@.master,
    {
        &self.master
    }

    /// The master constraint for `name`, if the host declared one.
    pub fn get_master(&self, name: &str) -> (r: Option<&Dependency>)
        ensures
            match r {
                Some(d) => self@.master.contains_key(name@) && d@ == self@.master[name@],
                None => !self@.master.contains_key(name@),
            },
    {
        self.master.get(name)
    }

    /// The recorded version of an accepted module.
    pub fn get_module_version(&self, name: &str) -> (r: Option<&String>)
        ensures
            match r {
                Some(v) => self@.module_version.contains_key(name@) && v@
                    == self@.module_version[name@],
                None => !self@.module_version.contains_key(name@),
            },
    {
        self.module_version.get(name)
    }

    /// The dependency table of an accepted module.
    pub fn get_module_deps(&self, name: &str) -> (r: Option<&Table<Dependency>>)
        ensures
            match r {
                Some(t) => self@.deps_by_module.contains_key(name@) && t@
                    == self@.deps_by_module[name@],
                None => !self@.deps_by_module.contains_key(name@),
            },
    {
        self.deps_by_module.get(name)
    }

    /// The dependency tables of every accepted module that declares a
    /// dependency named `name`; a module with no recorded table contributes
    /// an empty one. `None` when no accepted module depends on `name`.
    pub fn get_module_by_dep(&self, name: &str) -> (r: Option<Vec<&Table<Dependency>>>)
        requires
            self.wf(),
        ensures
            match r {
                Some(tables) => {
                    &&& self@.module_by_dep.contains_key(name@)
                    &&& tables@.len() == self@.module_by_dep[name@].len()
                    &&& forall|i: int|
                        0 <= i < tables@.len() ==> (#[trigger] tables@[i])@ == table_for(
                            self@,
                            self@.module_by_dep[name@][i],
                        )
                },
                None => !self@.module_by_dep.contains_key(name@),
            },
    {
        let list = match self.module_by_dep.get(name) {
            Some(l) => l,
            None => {
                return None;
            },
        };
        let names = list.names();
        let mut tables: Vec<&Table<Dependency>> = Vec::new();
        let n: usize = names.len();
        let mut i: usize = 0;
        proof {
            assert(list@ == self@.module_by_dep[name@]);
        }
        while i < n
            invariant
                0 <= i <= n,
                self.wf(),
                n == names@.len(),
                names@.map_values(|s: String| s@) == self@.module_by_dep[name@],
                tables@.len() == i,
                forall|j: int|
                    0 <= j < i ==> (#[trigger] tables@[j])@ == table_for(
                        self@,
                        self@.module_by_dep[name@][j],
                    ),
            decreases n - i,
        {
            proof {
                assert(names@.map_values(|s: String| s@)[i as int] == names@[i as int]@);
            }
            match self.deps_by_module.get(names[i].as_str()) {
                Some(t) => tables.push(t),
                None => tables.push(&self.dummy),
            }
            i = i + 1;
        }
        Some(tables)
    }
}

// == The compatibility check ==

/// What a single dependency item can be rejected for.
pub ghost enum DepIssue {
    /// The item is not a `name=version` pair.
    Format,
    /// The declared version differs from the one the table holds.
    Version { name: Seq<char>, expected: Seq<char>, actual: Seq<char> },
    /// The feature sets do not agree.
    Features { name: Seq<char> },
}

/// Whether an [Error] value carries exactly the given issue.
pub open spec fn issue_error(e: Error, iss: DepIssue) -> bool {
    match iss {
        DepIssue::Format => e == Error::InvalidDepFormat,
        DepIssue::Version { name, expected, actual } => (e matches Error::IncompatibleDep(d)
            && d.name@ == name && d.expected_version@ == expected && d.actual_version@ == actual),
        DepIssue::Features { name } => (e matches Error::IncompatibleFeatureSet(s) && s@ == name),
    }
}

/// The distinct qualified features of a candidate that belong to dependency
/// `name`: the items of its FEATURES list that begin with the dependency's
/// name.
pub open spec fn feature_set_for(items: Seq<Seq<char>>, name: Seq<char>) -> Set<Seq<char>>
    decreases items.len(),
{
    if items.len() == 0 {
        Set::empty()
    } else {
        let rest = feature_set_for(items.drop_last(), name);
        if spec_starts_with(items.last(), name) {
            rest.insert(items.last())
        } else {
            rest
        }
    }
}

/// The feature set is finite, and holds exactly the items with the right
/// prefix.
pub proof fn lemma_feature_set_for(items: Seq<Seq<char>>, name: Seq<char>)
    ensures
        feature_set_for(items, name).finite(),
        forall|f: Seq<char>|
            feature_set_for(items, name).contains(f) <==> (items.contains(f) && spec_starts_with(
                f,
                name,
            )),
    decreases items.len(),
{
    if items.len() > 0 {
        lemma_feature_set_for(items.drop_last(), name);
        assert forall|f: Seq<char>|
            feature_set_for(items, name).contains(f) <==> (items.contains(f) && spec_starts_with(
                f,
                name,
            )) by {
            if items.contains(f) {
                let k = choose|k: int| 0 <= k < items.len() && items[k] == f;
                if k < items.len() - 1 {
                    assert(items.drop_last()[k] == f);
                    assert(items.drop_last().contains(f));
                } else {
                    assert(items.last() == f);
                }
            }
            if items.drop_last().contains(f) {
                let k = choose|k: int| 0 <= k < items.drop_last().len() && items.drop_last()[k]
                    == f;
                assert(items[k] == f);
            }
        }
    }
}

/// The first position in `fs` holding exactly `x`, if any.
pub open spec fn spec_first_eq(fs: Seq<Seq<char>>, x: Seq<char>) -> Option<int>
    decreases fs.len(),
{
    if fs.len() == 0 {
        None
    } else if fs[0] == x {
        Some(0int)
    } else {
        match spec_first_eq(fs.skip(1), x) {
            Some(i) => Some(i + 1),
            None => None,
        }
    }
}

/// What `spec_first_eq` returns, said without recursion.
pub proof fn lemma_spec_first_eq(fs: Seq<Seq<char>>, x: Seq<char>)
    ensures
        match spec_first_eq(fs, x) {
            Some(i) => 0 <= i < fs.len() && fs[i] == x && forall|j: int| 0 <= j < i ==> fs[j] != x,
            None => forall|j: int| 0 <= j < fs.len() ==> fs[j] != x,
        },
    decreases fs.len(),
{
    if fs.len() != 0 && fs[0] != x {
        lemma_spec_first_eq(fs.skip(1), x);
        let rest = fs.skip(1);
        match spec_first_eq(rest, x) {
            Some(i) => {
                assert(fs[i + 1] == rest[i]);
                assert forall|j: int| 0 <= j < i + 1 implies fs[j] != x by {
                    if j > 0 {
                        assert(fs[j] == rest[j - 1]);
                    }
                }
            },
            None => {
                assert forall|j: int| 0 <= j < fs.len() implies fs[j] != x by {
                    if j > 0 {
                        assert(fs[j] == rest[j - 1]);
                    }
                }
            },
        }
    }
}

/// The position of the first wildcard entry of a feature list.
pub open spec fn wildcard_index(fs: Seq<Seq<char>>) -> Option<int> {
    spec_first_eq(fs, "*"@)
}

/// Whether a master-side negative feature is enabled by the candidate.
pub open spec fn neg_conflict(neg: Seq<Seq<char>>, fset: Set<Seq<char>>) -> bool {
    exists|i: int| 0 <= i < neg.len() && fset.contains(neg[i])
}

/// Whether the candidate's feature set satisfies the table-side feature
/// list: every feature before a wildcard must be enabled; with no wildcard,
/// every feature must be enabled and the counts must agree exactly.
pub open spec fn features_covered(fs: Seq<Seq<char>>, fset: Set<Seq<char>>) -> bool {
    match wildcard_index(fs) {
        Some(k) => forall|i: int| 0 <= i < k ==> fset.contains(fs[i]),
        None => (forall|i: int| 0 <= i < fs.len() ==> fset.contains(fs[i])) && fset.len()
            == fs.len(),
    }
}

/// The candidate's enabled feature set for one dependency, from the raw
/// FEATURES value: an empty value enables nothing at all.
pub open spec fn spec_enabled_set(f_text: Seq<char>, name: Seq<char>) -> Set<Seq<char>> {
    feature_set_for(spec_feature_items(f_text), name)
}

/// The judgment on one declared dependency against one table entry: the
/// versions must be equal, no negative feature may be enabled, and the
/// feature sets must agree as `features_covered` says. An empty FEATURES
/// value enables nothing — a wildcard-first entry accepts it, any other
/// non-empty feature list rejects it.
pub open spec fn spec_check_dep(
    name: Seq<char>,
    version: Seq<char>,
    f_text: Seq<char>,
    dep: DepSpec,
) -> Option<DepIssue> {
    if version != dep.version {
        Some(DepIssue::Version { name, expected: dep.version, actual: version })
    } else {
        let fset = spec_enabled_set(f_text, name);
        if neg_conflict(dep.negative_features, fset) {
            Some(DepIssue::Features { name })
        } else if !features_covered(dep.features, fset) {
            Some(DepIssue::Features { name })
        } else {
            None
        }
    }
}

/// The judgment on one item of a DEPS list: a malformed item is rejected,
/// an item whose name the table does not hold passes, and anything else is
/// judged by `spec_check_dep`.
pub open spec fn item_issue(
    item: Seq<char>,
    f_text: Seq<char>,
    table: Map<Seq<char>, DepSpec>,
) -> Option<DepIssue> {
    match spec_kv(item) {
        None => Some(DepIssue::Format),
        Some(kv) => if table.contains_key(kv.0) {
            spec_check_dep(kv.0, kv.1, f_text, table[kv.0])
        } else {
            None
        },
    }
}

/// The first rejected item of a DEPS list, in declaration order.
pub open spec fn first_issue(
    items: Seq<Seq<char>>,
    f_text: Seq<char>,
    table: Map<Seq<char>, DepSpec>,
) -> Option<DepIssue>
    decreases items.len(),
{
    if items.len() == 0 {
        None
    } else {
        match item_issue(items[0], f_text, table) {
            Some(e) => Some(e),
            None => first_issue(items.skip(1), f_text, table),
        }
    }
}

/// The judgment on a whole DEPS value against one table: an empty value
/// declares nothing and always passes.
pub open spec fn spec_check_deps(
    d_text: Seq<char>,
    f_text: Seq<char>,
    table: Map<Seq<char>, DepSpec>,
) -> Option<DepIssue> {
    if d_text.len() == 0 {
        None
    } else {
        first_issue(spec_split(d_text, ','), f_text, table)
    }
}

/// Whether a candidate's declared dependencies and features are compatible
/// with one table of constraints.
pub open spec fn deps_compatible(
    d_text: Seq<char>,
    f_text: Seq<char>,
    table: Map<Seq<char>, DepSpec>,
) -> bool {
    spec_check_deps(d_text, f_text, table) is None
}

/// Pushing an item adds exactly it to the set of a sequence's items.
proof fn lemma_push_to_set(s: Seq<Seq<char>>, x: Seq<char>)
    ensures
        s.push(x).to_set() == s.to_set().insert(x),
{
    assert forall|f: Seq<char>|
        s.push(x).to_set().contains(f) implies s.to_set().contains(f) || f == x by {
        let k = choose|k: int| 0 <= k < s.push(x).len() && s.push(x)[k] == f;
        if k < s.len() {
            assert(s[k] == f);
        }
    }
    assert forall|f: Seq<char>| s.to_set().contains(f) implies s.push(x).to_set().contains(f) by {
        let k = choose|k: int| 0 <= k < s.len() && s[k] == f;
        assert(s.push(x)[k] == f);
    }
    assert(s.push(x).to_set().contains(x)) by {
        assert(s.push(x)[s.len() as int] == x);
    }
    assert(s.push(x).to_set() =~= s.to_set().insert(x));
}

/// Whether `v`, viewed as texts, holds `s`.
fn vec_contains(v: &Vec<String>, s: &str) -> (r: bool)
    ensures
        r == v@.map_values(|x: String| x@).contains(s@),
{
    let n: usize = v.len();
    let mut i: usize = 0;
    while i < n
        invariant
            0 <= i <= n,
            n == v@.len(),
            forall|j: int| 0 <= j < i ==> v@[j]@ != s@,
        decreases n - i,
    {
        if str_eq(v[i].as_str(), s) {
            proof {
                assert(v@.map_values(|x: String| x@)[i as int] == s@);
            }
            return true;
        }
        i = i + 1;
    }
    proof {
        let ghost m = v@.map_values(|x: String| x@);
        if m.contains(s@) {
            let k = choose|k: int| 0 <= k < m.len() && m[k] == s@;
            assert(v@[k]@ == s@);
        }
    }
    false
}

/// The distinct items of `items` that begin with `name`, in first-seen
/// order: the candidate's enabled feature set for that dependency.
fn distinct_features(items: &Vec<String>, name: &str) -> (r: Vec<String>)
    ensures
        r@.map_values(|x: String| x@).no_duplicates(),
        r@.map_values(|x: String| x@).to_set() == feature_set_for(
            items@.map_values(|x: String| x@),
            name@,
        ),
    decreases items@.len(),
{
    let ghost views = items@.map_values(|x: String| x@);
    let mut r: Vec<String> = Vec::new();
    let n: usize = items.len();
    let mut i: usize = 0;
    proof {
        assert(views.take(0int) =~= Seq::<Seq<char>>::empty());
    }
    while i < n
        invariant
            0 <= i <= n,
            n == views.len(),
            items@.map_values(|x: String| x@) == views,
            r@.map_values(|x: String| x@).no_duplicates(),
            r@.map_values(|x: String| x@).to_set() == feature_set_for(views.take(i as int), name@),
        decreases n - i,
    {
        proof {
            assert(views[i as int] == items@[i as int]@);
            assert(views.take(i + 1 as int).drop_last() =~= views.take(i as int));
            assert(views.take(i + 1 as int).last() == views[i as int]);
        }
        let keep = starts_with(items[i].as_str(), name);
        if keep {
            let dup = vec_contains(&r, items[i].as_str());
            if !dup {
                let ghost old_r = r@.map_values(|x: String| x@);
                r.push(items[i].clone());
                proof {
                    assert(r@.map_values(|x: String| x@) =~= old_r.push(views[i as int]));
                    lemma_push_to_set(old_r, views[i as int]);
                }
            } else {
                proof {
                    assert(r@.map_values(|x: String| x@).to_set() =~= feature_set_for(
                        views.take(i + 1 as int),
                        name@,
                    ));
                }
            }
        }
        i = i + 1;
    }
    proof {
        assert(views.take(n as int) =~= views);
    }
    r
}


/// Checks one declared dependency against one table entry, returning
/// exactly what `spec_check_dep`.
#[verifier::loop_isolation(false)]
pub fn check_dep(name: &str, version: &str, features: &Value, dep: &Dependency) -> (r: Result<
    (),
    Error,
>)
    ensures
        ({
            let iss = spec_check_dep(name@, version@, features@, dep@);
            match r {
                Ok(()) => iss is None,
                Err(e) => iss is Some && issue_error(e, iss->Some_0),
            }
        }),
{
    if !str_eq(version, dep.version.as_str()) {
        return Result::Err(
            Error::IncompatibleDep(
                IncompatibleDependency {
                    name: String::from_str(name),
                    expected_version: dep.version.clone(),
                    actual_version: String::from_str(version),
                },
            ),
        );
    }
    let items = match features.as_list() {
        None => Vec::new(),
        Some(items) => items,
    };
    let ghost fitems = spec_feature_items(features@);
    let ghost fset = feature_set_for(fitems, name@);
    proof {
        if features@.len() == 0 {
            assert(items@.map_values(|x: String| x@) =~= fitems);
        }
    }
    let enabled = distinct_features(&items, name);
    let ghost eviews = enabled@.map_values(|x: String| x@);
    proof {
        assert(eviews.to_set() == fset);
    }
    // No negative feature of the table entry may be enabled.
    let nneg: usize = dep.negative_features.len();
    let mut i: usize = 0;
    while i < nneg
        invariant
            0 <= i <= nneg,
            forall|j: int| 0 <= j < i ==> !fset.contains(dep@.negative_features[j]),
        decreases nneg - i,
    {
        proof {
            assert(dep@.negative_features[i as int] == dep.negative_features@[i as int]@);
        }
        if vec_contains(&enabled, dep.negative_features[i].as_str()) {
            proof {
                assert(fset.contains(dep@.negative_features[i as int]));
            }
            return Result::Err(Error::IncompatibleFeatureSet(String::from_str(name)));
        }
        i = i + 1;
    }
    proof {
        assert(!neg_conflict(dep@.negative_features, fset));
        lemma_spec_first_eq(dep@.features, "*"@);
    }
    // Walk the table entry's features: a wildcard accepts the rest, any
    // other feature must be enabled.
    let nfeat: usize = dep.features.len();
    let mut flag: bool = true;
    let mut k: usize = 0;
    let mut broke: bool = false;
    while k < nfeat && !broke
        invariant
            0 <= k <= nfeat,
            nfeat == dep@.features.len(),
            !broke ==> forall|j: int| 0 <= j < k ==> fset.contains(dep@.features[j]),
            !broke ==> flag,
            !broke ==> forall|j: int| 0 <= j < k ==> dep@.features[j] != "*"@,
            broke ==> wildcard_index(dep@.features) is Some
                && wildcard_index(dep@.features)->Some_0 < k,
            broke ==> forall|j: int|
                0 <= j < wildcard_index(dep@.features)->Some_0 ==> fset.contains(dep@.features[j]),
        decreases nfeat - k + (if broke { 0int } else { 1int }),
    {
        proof {
            assert(dep@.features[k as int] == dep.features@[k as int]@);
        }
        if str_eq(dep.features[k].as_str(), "*") {
            flag = false;
            broke = true;
            proof {
                if wildcard_index(dep@.features) is None {
                    assert(dep@.features[k as int] != "*"@);
                }
                if wildcard_index(dep@.features)->Some_0 > k as int {
                    assert(dep@.features[k as int] != "*"@);
                }
            }
        } else if !vec_contains(&enabled, dep.features[k].as_str()) {
            proof {
                assert(!fset.contains(dep@.features[k as int]));
                match wildcard_index(dep@.features) {
                    Some(w) => {
                        assert(w > k as int);
                        assert(!features_covered(dep@.features, fset));
                    },
                    None => {
                        assert(!features_covered(dep@.features, fset));
                    },
                }
            }
            return Result::Err(Error::IncompatibleFeatureSet(String::from_str(name)));
        }
        k = k + 1;
    }
    if broke {
        proof {
            let w = wildcard_index(dep@.features)->Some_0;
            assert(forall|j: int| 0 <= j < w ==> fset.contains(dep@.features[j]));
            assert(features_covered(dep@.features, fset));
        }
        return Result::Ok(());
    }
    proof {
        assert(wildcard_index(dep@.features) is None);
        eviews.unique_seq_to_set();
    }
    if enabled.len() != dep.features.len() {
        proof {
            assert(fset.len() != dep@.features.len());
            assert(!features_covered(dep@.features, fset));
        }
        return Result::Err(Error::IncompatibleFeatureSet(String::from_str(name)));
    }
    proof {
        assert(fset.len() == dep@.features.len());
        assert(features_covered(dep@.features, fset));
    }
    Result::Ok(())
}

/// Checks every declared dependency of a candidate, in declaration order,
/// against one table of constraints; the result is exactly
/// `spec_check_deps`. An empty DEPS value passes trivially.
#[verifier::loop_isolation(false)]
pub fn check_deps(deps: &Value, features: &Value, table: &Table<Dependency>) -> (r: Result<
    (),
    Error,
>)
    ensures
        ({
            let iss = spec_check_deps(deps@, features@, table@);
            match r {
                Ok(()) => iss is None,
                Err(e) => iss is Some && issue_error(e, iss->Some_0),
            }
        }),
{
    let items = match deps.as_list() {
        None => {
            return Result::Ok(());
        },
        Some(items) => items,
    };
    let ghost views = spec_split(deps@, ',');
    let n: usize = items.len();
    let mut i: usize = 0;
    proof {
        assert(views.skip(0int) =~= views);
    }
    while i < n
        invariant
            0 <= i <= n,
            n == views.len(),
            items@.map_values(|p: String| p@) == views,
            first_issue(views, features@, table@) == first_issue(
                views.skip(i as int),
                features@,
                table@,
            ),
        decreases n - i,
    {
        proof {
            assert(views[i as int] == items@[i as int]@);
            assert(views.skip(i as int)[0] == views[i as int]);
            assert(views.skip(i as int).skip(1) =~= views.skip(i + 1 as int));
        }
        let (name, version) = match parse_kv(items[i].as_str()) {
            Some(p) => p,
            None => {
                return Result::Err(Error::InvalidDepFormat);
            },
        };
        match table.get(name.as_str()) {
            Some(dep) => {
                match check_dep(name.as_str(), version.as_str(), features, dep) {
                    Ok(()) => {},
                    Err(e) => {
                        return Result::Err(e);
                    },
                }
            },
            None => {},
        }
        i = i + 1;
    }
    proof {
        assert(views.skip(n as int) =~= Seq::<Seq<char>>::empty());
    }
    Result::Ok(())
}


/// The parsed pairs of a DEPS value; an empty value declares nothing.
pub open spec fn spec_parsed_deps(d_text: Seq<char>) -> Seq<(Seq<char>, Seq<char>)> {
    if d_text.len() == 0 {
        Seq::empty()
    } else {
        spec_kv_list(spec_split(d_text, ','))
    }
}

/// The items of a FEATURES value; an empty value enables nothing.
pub open spec fn spec_feature_items(f_text: Seq<char>) -> Seq<Seq<char>> {
    if f_text.len() == 0 {
        Seq::empty()
    } else {
        spec_split(f_text, ',')
    }
}

/// Extends the reverse index: for every declared pair, in order, the module
/// name is appended to that dependency's list.
pub open spec fn extend_rev_index(
    m: Map<Seq<char>, Seq<Seq<char>>>,
    ds: Seq<(Seq<char>, Seq<char>)>,
    module: Seq<char>,
) -> Map<Seq<char>, Seq<Seq<char>>>
    decreases ds.len(),
{
    if ds.len() == 0 {
        m
    } else {
        let m2 = extend_rev_index(m, ds.drop_last(), module);
        let key = ds.last().0;
        let prior = if m2.contains_key(key) {
            m2[key]
        } else {
            Seq::empty()
        };
        m2.insert(key, prior.push(module))
    }
}

/// The items of `f_items` that begin with `name`, duplicates and order
/// kept.
pub open spec fn features_for(f_items: Seq<Seq<char>>, name: Seq<char>) -> Seq<Seq<char>> {
    f_items.filter(|f: Seq<char>| spec_starts_with(f, name))
}

/// The constraint recorded for one declared dependency: its version and
/// the candidate's features that begin with its name, duplicates kept.
pub open spec fn spec_dep_entry(
    name: Seq<char>,
    version: Seq<char>,
    f_items: Seq<Seq<char>>,
) -> DepSpec {
    DepSpec {
        version,
        features: features_for(f_items, name),
        negative_features: Seq::empty(),
    }
}

/// The dependency table recorded for a candidate, one entry per declared
/// pair, later pairs of the same name replacing earlier ones.
pub open spec fn spec_dep_table(
    ds: Seq<(Seq<char>, Seq<char>)>,
    f_items: Seq<Seq<char>>,
) -> Map<Seq<char>, DepSpec>
    decreases ds.len(),
{
    if ds.len() == 0 {
        Map::empty()
    } else {
        spec_dep_table(ds.drop_last(), f_items).insert(
            ds.last().0,
            spec_dep_entry(ds.last().0, ds.last().1, f_items),
        )
    }
}

/// The whole negotiation state after a candidate is committed.
pub open spec fn spec_commit(
    dv: DepsView,
    name: Seq<char>,
    version: Seq<char>,
    d_text: Seq<char>,
    f_text: Seq<char>,
) -> DepsView {
    let ds = spec_parsed_deps(d_text);
    let fi = spec_feature_items(f_text);
    DepsView {
        master: dv.master,
        deps_by_module: dv.deps_by_module.insert(name, spec_dep_table(ds, fi)),
        module_by_dep: extend_rev_index(dv.module_by_dep, ds, name),
        module_version: dv.module_version.insert(name, version),
    }
}

/// The items of `items` that begin with `name`, duplicates and order kept.
fn filter_features(items: &Vec<String>, name: &str) -> (r: Vec<String>)
    ensures
        r@.map_values(|x: String| x@) == features_for(items@.map_values(|x: String| x@), name@),
{
    let ghost views = items@.map_values(|x: String| x@);
    let ghost pred = |f: Seq<char>| spec_starts_with(f, name@);
    let mut r: Vec<String> = Vec::new();
    let n: usize = items.len();
    let mut i: usize = 0;
    proof {
        reveal(Seq::filter);
        assert(views.take(0int) =~= Seq::<Seq<char>>::empty());
        assert(r@.map_values(|x: String| x@) =~= views.take(0int).filter(pred));
    }
    while i < n
        invariant
            0 <= i <= n,
            n == views.len(),
            items@.map_values(|x: String| x@) == views,
            pred == (|f: Seq<char>| spec_starts_with(f, name@)),
            r@.map_values(|x: String| x@) == views.take(i as int).filter(pred),
        decreases n - i,
    {
        proof {
            reveal(Seq::filter);
            assert(views[i as int] == items@[i as int]@);
            assert(views.take(i + 1 as int).drop_last() =~= views.take(i as int));
            assert(views.take(i + 1 as int).last() == views[i as int]);
        }
        let keep = starts_with(items[i].as_str(), name);
        if keep {
            let ghost old_r = r@.map_values(|x: String| x@);
            r.push(items[i].clone());
            proof {
                assert(r@.map_values(|x: String| x@) =~= old_r.push(views[i as int]));
            }
        }
        i = i + 1;
    }
    proof {
        assert(views.take(n as int) =~= views);
    }
    r
}

impl DepsMap {
    /// Commits an accepted candidate: records its dependency table and its
    /// own version, and extends the reverse index for every declared
    /// dependency. Nothing is changed when the DEPS value is malformed.
    #[verifier::loop_isolation(false)]
    pub fn insert_module(
        &mut self,
        name: &Value,
        version: &Value,
        deps: &Value,
        features: &Value,
    ) -> (r: Result<(), Error>)
        requires
            old(self).wf(),
        ensures
            final (self).wf(),
            match r {
                Ok(()) => final (self)@ == spec_commit(
                    old(self)@,
                    name@,
                    version@,
                    deps@,
                    features@,
                ),
                Err(e) => {
                    &&& e == Error::InvalidDepFormat
                    &&& deps@.len() > 0
                    &&& !spec_kv_list_ok(spec_split(deps@, ','))
                    &&& final (self)@ == old(self)@
                },
            },
    {
        let ghost ds = spec_parsed_deps(deps@);
        let ghost fi = spec_feature_items(features@);
        let pairs: Vec<(String, String)> = match deps.parse_key_value_pairs() {
            None => Vec::new(),
            Some(Ok(p)) => p,
            Some(Err(e)) => {
                return Result::Err(e);
            },
        };
        proof {
            assert(pairs@.map_values(|p: (String, String)| (p.0@, p.1@)) =~= ds);
        }
        let fitems: Vec<String> = match features.as_list() {
            None => Vec::new(),
            Some(v) => v,
        };
        proof {
            assert(fitems@.map_values(|x: String| x@) =~= fi);
        }
        let module_name = String::from_str(name.as_str());
        // Extend the reverse index, one declared pair at a time.
        let np: usize = pairs.len();
        let mut i: usize = 0;
        proof {
            assert(ds.take(0int) =~= Seq::<(Seq<char>, Seq<char>)>::empty());
        }
        while i < np
            invariant
                0 <= i <= np,
                np == ds.len(),
                pairs@.map_values(|p: (String, String)| (p.0@, p.1@)) == ds,
                module_name@ == name@,
                self.wf(),
                self.module_by_dep@ == extend_rev_index(old(self)@.module_by_dep, ds.take(i as int), name@),
                self.master@ == old(self)@.master,
                self.deps_by_module@ == old(self)@.deps_by_module,
                self.module_version@ == old(self)@.module_version,
            decreases np - i,
        {
            proof {
                assert(pairs@.map_values(|p: (String, String)| (p.0@, p.1@))[i as int] == (
                    pairs@[i as int].0@,
                    pairs@[i as int].1@,
                ));
                assert(ds.take(i + 1 as int).drop_last() =~= ds.take(i as int));
                assert(ds.take(i + 1 as int).last() == ds[i as int]);
            }
            let key = pairs[i].0.clone();
            let updated = match self.module_by_dep.get(key.as_str()) {
                Some(l) => l.clone_push(module_name.clone()),
                None => NameList::singleton(module_name.clone()),
            };
            self.module_by_dep.insert(key, updated);
            i = i + 1;
        }
        proof {
            assert(ds.take(np as int) =~= ds);
        }
        // Record the candidate's own dependency table.
        let mut table: Table<Dependency> = Table::new();
        let mut k: usize = 0;
        proof {
            assert(ds.take(0int) =~= Seq::<(Seq<char>, Seq<char>)>::empty());
        }
        while k < np
            invariant
                0 <= k <= np,
                table@ == spec_dep_table(ds.take(k as int), fi),
            decreases np - k,
        {
            proof {
                assert(pairs@.map_values(|p: (String, String)| (p.0@, p.1@))[k as int] == (
                    pairs@[k as int].0@,
                    pairs@[k as int].1@,
                ));
                assert(ds.take(k + 1 as int).drop_last() =~= ds.take(k as int));
                assert(ds.take(k + 1 as int).last() == ds[k as int]);
            }
            let dname = pairs[k].0.clone();
            let dversion = pairs[k].1.clone();
            let feats = filter_features(&fitems, dname.as_str());
            let entry = Dependency {
                version: dversion,
                features: feats,
                negative_features: Vec::new(),
            };
            proof {
                assert(entry@.negative_features =~= Seq::<Seq<char>>::empty());
                assert(entry@ == spec_dep_entry(ds[k as int].0, ds[k as int].1, fi));
            }
            table.insert(dname, entry);
            k = k + 1;
        }
        proof {
            assert(ds.take(np as int) =~= ds);
        }
        self.deps_by_module.insert(module_name.clone(), table);
        self.module_version.insert(module_name, String::from_str(version.as_str()));
        Result::Ok(())
    }
}


/// What the negotiation decides for a candidate's metadata.
pub ghost enum MetaOutcome {
    /// Not a managed module: nothing is checked, nothing is committed.
    Skip,
    /// Every check passed; the candidate is committed.
    Accept,
    /// The candidate is rejected for this reason.
    Reject(SpecErr),
}

/// The reasons a candidate can be rejected.
pub ghost enum SpecErr {
    /// No TYPE key at all.
    NoType,
    /// A managed module without a RUSTC key.
    MissingRustc,
    /// A managed module without a DEPS key.
    MissingDeps,
    /// A managed module without a NAME key.
    MissingName,
    /// A managed module without a VERSION key.
    MissingVersion,
    /// A managed module without a FEATURES key.
    MissingFeatures,
    /// The toolchain fingerprint does not match.
    RustcMismatch { actual: Seq<char> },
    /// A dependency check failed.
    Dep(DepIssue),
}

/// Whether an [Error] value carries exactly the given rejection. A missing
/// VERSION key yields the same error value as a missing NAME key.
pub open spec fn spec_err_error(e: Error, se: SpecErr, rustc: Seq<char>) -> bool {
    match se {
        SpecErr::NoType => e == Error::InvalidMetadata,
        SpecErr::MissingRustc => e == Error::MissingVersionForRust,
        SpecErr::MissingDeps => e == Error::MissingDepsForRust,
        SpecErr::MissingName => e == Error::MissingModuleName,
        SpecErr::MissingVersion => e == Error::MissingModuleName,
        SpecErr::MissingFeatures => e == Error::MissingFeaturesForRust,
        SpecErr::RustcMismatch { actual } => (e matches Error::RustcVersionMismatch(x)
            && x.expected@ == rustc && x.actual@ == actual),
        SpecErr::Dep(iss) => issue_error(e, iss),
    }
}

/// The dependency tables of the accepted modules that declare a dependency
/// named `name`, in recorded order.
///
/// The reverse check is keyed by the candidate's own name on purpose: it
/// guards the pairs of modules whose ABI surfaces actually meet — those
/// that link against the candidate — together with the direct
/// module-on-module check below. Two accepted modules that never declare
/// each other may legitimately pin different versions of a shared third
/// dependency (each links its own copy), so a check across every shared
/// dependency name would reject configurations that load fine.
pub open spec fn rev_tables(dv: DepsView, name: Seq<char>) -> Seq<Map<Seq<char>, DepSpec>> {
    if dv.module_by_dep.contains_key(name) {
        dv.module_by_dep[name].map_values(|m: Seq<char>| table_for(dv, m))
    } else {
        Seq::empty()
    }
}

/// The first of the given tables against which the candidate's declared
/// dependencies fail.
pub open spec fn first_table_issue(
    d_text: Seq<char>,
    f_text: Seq<char>,
    tables: Seq<Map<Seq<char>, DepSpec>>,
) -> Option<DepIssue>
    decreases tables.len(),
{
    if tables.len() == 0 {
        None
    } else {
        match spec_check_deps(d_text, f_text, tables[0]) {
            Some(e) => Some(e),
            None => first_table_issue(d_text, f_text, tables.skip(1)),
        }
    }
}

/// The judgment on one declared pair that names an accepted module: its
/// declared version must equal the module's recorded version (a mismatch
/// names the recorded version as expected and the declared one as actual),
/// and the candidate's dependencies must pass against that module's table.
pub open spec fn module_pair_issue(
    pair: (Seq<char>, Seq<char>),
    d_text: Seq<char>,
    f_text: Seq<char>,
    dv: DepsView,
) -> Option<DepIssue> {
    if dv.deps_by_module.contains_key(pair.0) {
        if dv.module_version[pair.0] != pair.1 {
            Some(
                DepIssue::Version {
                    name: pair.0,
                    expected: dv.module_version[pair.0],
                    actual: pair.1,
                },
            )
        } else {
            spec_check_deps(d_text, f_text, dv.deps_by_module[pair.0])
        }
    } else {
        None
    }
}

/// The first declared pair rejected by the module-on-module check.
pub open spec fn first_module_issue(
    ds: Seq<(Seq<char>, Seq<char>)>,
    d_text: Seq<char>,
    f_text: Seq<char>,
    dv: DepsView,
) -> Option<DepIssue>
    decreases ds.len(),
{
    if ds.len() == 0 {
        None
    } else {
        match module_pair_issue(ds[0], d_text, f_text, dv) {
            Some(e) => Some(e),
            None => first_module_issue(ds.skip(1), d_text, f_text, dv),
        }
    }
}

/// The whole judgment on a candidate's metadata: which keys a managed module
/// must carry, the toolchain fingerprint check, then the declared
/// dependencies against the master table, against every module that depends
/// on the candidate's name, and against every module the candidate itself
/// names.
pub open spec fn spec_negotiate(
    m: Map<Seq<char>, Seq<char>>,
    dv: DepsView,
    rustc: Seq<char>,
) -> MetaOutcome {
    if !m.contains_key("TYPE"@) {
        MetaOutcome::Reject(SpecErr::NoType)
    } else if m["TYPE"@] != "RUST"@ {
        MetaOutcome::Skip
    } else if !m.contains_key("RUSTC"@) {
        MetaOutcome::Reject(SpecErr::MissingRustc)
    } else if !m.contains_key("DEPS"@) {
        MetaOutcome::Reject(SpecErr::MissingDeps)
    } else if !m.contains_key("NAME"@) {
        MetaOutcome::Reject(SpecErr::MissingName)
    } else if !m.contains_key("VERSION"@) {
        MetaOutcome::Reject(SpecErr::MissingVersion)
    } else if !m.contains_key("FEATURES"@) {
        MetaOutcome::Reject(SpecErr::MissingFeatures)
    } else if m["RUSTC"@] != rustc {
        MetaOutcome::Reject(SpecErr::RustcMismatch { actual: m["RUSTC"@] })
    } else {
        let d = m["DEPS"@];
        let f = m["FEATURES"@];
        match spec_check_deps(d, f, dv.master) {
            Some(iss) => MetaOutcome::Reject(SpecErr::Dep(iss)),
            None => match first_table_issue(d, f, rev_tables(dv, m["NAME"@])) {
                Some(iss) => MetaOutcome::Reject(SpecErr::Dep(iss)),
                None => match first_module_issue(spec_parsed_deps(d), d, f, dv) {
                    Some(iss) => MetaOutcome::Reject(SpecErr::Dep(iss)),
                    None => MetaOutcome::Accept,
                },
            },
        }
    }
}

/// A DEPS value that passed a table check has no malformed item.
proof fn lemma_first_issue_parses(
    items: Seq<Seq<char>>,
    f_text: Seq<char>,
    table: Map<Seq<char>, DepSpec>,
)
    requires
        first_issue(items, f_text, table) is None,
    ensures
        spec_kv_list_ok(items),
    decreases items.len(),
{
    if items.len() > 0 {
        lemma_first_issue_parses(items.skip(1), f_text, table);
        assert forall|i: int| 0 <= i < items.len() implies spec_kv(#[trigger] items[i]) is Some by {
            if i == 0 {
                assert(item_issue(items[0], f_text, table) is None);
            } else {
                assert(items.skip(1)[i - 1] == items[i]);
            }
        }
    }
}

/// Runs the whole negotiation for one candidate: on success the candidate
/// is committed to the map exactly as `spec_commit` says; on failure the
/// map is unchanged and the error is the rejection `spec_negotiate` names.
/// `rustc` is the toolchain fingerprint this host was built with.
#[verifier::loop_isolation(false)]
pub fn check_metadata(metadata: &Metadata, deps: &mut DepsMap, rustc: &str) -> (r: Result<
    (),
    Error,
>)
    requires
        old(deps).wf(),
    ensures
        final (deps).wf(),
        ({
            let out = spec_negotiate(metadata@, old(deps)@, rustc@);
            match r {
                Ok(()) => (out is Skip && final (deps)@ == old(deps)@) || (out is Accept
                    && final (deps)@ == spec_commit(
                    old(deps)@,
                    metadata@["NAME"@],
                    metadata@["VERSION"@],
                    metadata@["DEPS"@],
                    metadata@["FEATURES"@],
                )),
                Err(e) => out is Reject && spec_err_error(e, out->Reject_0, rustc@)
                    && final (deps)@ == old(deps)@,
            }
        }),
{
    let ty = match metadata.get("TYPE") {
        Some(v) => v,
        None => {
            return Result::Err(Error::InvalidMetadata);
        },
    };
    if !str_eq(ty.as_str(), "RUST") {
        return Result::Ok(());
    }
    let rustc_value = match metadata.get("RUSTC") {
        Some(v) => v,
        None => {
            return Result::Err(Error::MissingVersionForRust);
        },
    };
    let deps_value = match metadata.get("DEPS") {
        Some(v) => v,
        None => {
            return Result::Err(Error::MissingDepsForRust);
        },
    };
    let module_name = match metadata.get("NAME") {
        Some(v) => v,
        None => {
            return Result::Err(Error::MissingModuleName);
        },
    };
    let module_version = match metadata.get("VERSION") {
        Some(v) => v,
        None => {
            return Result::Err(Error::MissingModuleName);
        },
    };
    let features_value = match metadata.get("FEATURES") {
        Some(v) => v,
        None => {
            return Result::Err(Error::MissingFeaturesForRust);
        },
    };
    if !str_eq(rustc_value.as_str(), rustc) {
        return Result::Err(
            Error::RustcVersionMismatch(
                IncompatibleRustc {
                    expected: String::from_str(rustc),
                    actual: String::from_str(rustc_value.as_str()),
                },
            ),
        );
    }
    match check_deps(deps_value, features_value, deps.master_table()) {
        Ok(()) => {},
        Err(e) => {
            return Result::Err(e);
        },
    }
    // Check against every accepted module that declares a dependency named
    // like the candidate.
    let ghost dv = deps@;
    match deps.get_module_by_dep(module_name.as_str()) {
        Some(tables) => {
            let ghost tviews = rev_tables(dv, module_name@);
            let nt: usize = tables.len();
            let mut i: usize = 0;
            proof {
                assert(tviews.len() == nt);
                assert(tviews.skip(0int) =~= tviews);
            }
            while i < nt
                invariant
                    0 <= i <= nt,
                    nt == tables@.len(),
                    first_table_issue(deps_value@, features_value@, tviews) == first_table_issue(
                        deps_value@,
                        features_value@,
                        tviews.skip(i as int),
                    ),
                decreases nt - i,
            {
                proof {
                    assert(tviews[i as int] == (tables@[i as int])@);
                    assert(tviews.skip(i as int)[0] == tviews[i as int]);
                    assert(tviews.skip(i as int).skip(1) =~= tviews.skip(i + 1 as int));
                }
                match check_deps(deps_value, features_value, tables[i]) {
                    Ok(()) => {},
                    Err(e) => {
                        return Result::Err(e);
                    },
                }
                i = i + 1;
            }
            proof {
                assert(tviews.skip(nt as int) =~= Seq::<Map<Seq<char>, DepSpec>>::empty());
            }
        },
        None => {
            proof {
                assert(rev_tables(dv, module_name@) =~= Seq::<Map<Seq<char>, DepSpec>>::empty());
            }
        },
    }
    // Check every declared pair that names an accepted module.
    let ghost ds = spec_parsed_deps(deps_value@);
    match deps_value.parse_key_value_pairs() {
        None => {
            proof {
                assert(ds =~= Seq::<(Seq<char>, Seq<char>)>::empty());
            }
        },
        Some(Err(e)) => {
            proof {
                lemma_first_issue_parses(spec_split(deps_value@, ','), features_value@, dv.master);
                assert(false);
            }
            return Result::Err(e);
        },
        Some(Ok(pairs)) => {
            proof {
                assert(pairs@.map_values(|p: (String, String)| (p.0@, p.1@)) =~= ds);
            }
            let np: usize = pairs.len();
            let mut i: usize = 0;
            proof {
                assert(ds.skip(0int) =~= ds);
            }
            while i < np
                invariant
                    0 <= i <= np,
                    np == ds.len(),
                    pairs@.map_values(|p: (String, String)| (p.0@, p.1@)) == ds,
                    first_module_issue(ds, deps_value@, features_value@, dv)
                        == first_module_issue(ds.skip(i as int), deps_value@, features_value@, dv),
                decreases np - i,
            {
                proof {
                    assert(pairs@.map_values(|p: (String, String)| (p.0@, p.1@))[i as int] == (
                        pairs@[i as int].0@,
                        pairs@[i as int].1@,
                    ));
                    assert(ds.skip(i as int)[0] == ds[i as int]);
                    assert(ds.skip(i as int).skip(1) =~= ds.skip(i + 1 as int));
                }
                let dep_name = &pairs[i].0;
                match deps.get_module_deps(dep_name.as_str()) {
                    Some(table) => {
                        let recorded = match deps.get_module_version(dep_name.as_str()) {
                            Some(v) => v,
                            None => {
                                proof {
                                    assert(false);
                                }
                                return Result::Err(Error::NotFound(String::new()));
                            },
                        };
                        if !str_eq(recorded.as_str(), pairs[i].1.as_str()) {
                            return Result::Err(
                                Error::IncompatibleDep(
                                    IncompatibleDependency {
                                        name: pairs[i].0.clone(),
                                        expected_version: recorded.clone(),
                                        actual_version: pairs[i].1.clone(),
                                    },
                                ),
                            );
                        }
                        match check_deps(deps_value, features_value, table) {
                            Ok(()) => {},
                            Err(e) => {
                                return Result::Err(e);
                            },
                        }
                    },
                    None => {},
                }
                i = i + 1;
            }
            proof {
                assert(ds.skip(np as int) =~= Seq::<(Seq<char>, Seq<char>)>::empty());
            }
        },
    }
    // All checks passed: commit the candidate.
    match deps.insert_module(module_name, module_version, deps_value, features_value) {
        Ok(()) => Result::Ok(()),
        Err(e) => {
            proof {
                lemma_first_issue_parses(spec_split(deps_value@, ','), features_value@, dv.master);
                assert(false);
            }
            Result::Err(e)
        },
    }
}


/// *Version equality, not range.* A candidate declaring any version other
/// than the one the table holds for that dependency is rejected with a
/// version issue naming both versions — however semver-compatible the two
/// may look.
pub proof fn lemma_version_identity(
    name: Seq<char>,
    version: Seq<char>,
    f_text: Seq<char>,
    dep: DepSpec,
)
    requires
        version != dep.version,
    ensures
        spec_check_dep(name, version, f_text, dep) == Some(
            DepIssue::Version { name, expected: dep.version, actual: version },
        ),
{
}

/// *Wildcard absorption, accepting half.* A table entry whose feature list
/// is exactly the wildcard and which declares no negative feature accepts
/// a candidate with any feature subset at all, provided the versions are
/// equal.
pub proof fn lemma_wildcard_accepts_any(
    name: Seq<char>,
    version: Seq<char>,
    f_text: Seq<char>,
    dep: DepSpec,
)
    requires
        version == dep.version,
        dep.features == seq!["*"@],
        dep.negative_features == Seq::<Seq<char>>::empty(),
    ensures
        spec_check_dep(name, version, f_text, dep) is None,
{
    let fset = feature_set_for(spec_split(f_text, ','), name);
    assert(dep.features[0] == "*"@);
    assert(wildcard_index(dep.features) == Some(0int));
    assert(features_covered(dep.features, fset));
}

/// *Wildcard absorption, rejecting half.* A negative feature declared by
/// the table entry rejects any candidate that enables it, wildcard or not.
pub proof fn lemma_negative_rejects(
    name: Seq<char>,
    version: Seq<char>,
    f_text: Seq<char>,
    dep: DepSpec,
    nf: Seq<char>,
)
    requires
        version == dep.version,
        f_text.len() > 0,
        dep.negative_features.contains(nf),
        spec_split(f_text, ',').contains(nf),
        spec_starts_with(nf, name),
    ensures
        spec_check_dep(name, version, f_text, dep) == Some(DepIssue::Features { name }),
{
    let fset = feature_set_for(spec_split(f_text, ','), name);
    lemma_feature_set_for(spec_split(f_text, ','), name);
    assert(fset.contains(nf));
    let i = choose|i: int|
        0 <= i < dep.negative_features.len() && dep.negative_features[i] == nf;
    assert(neg_conflict(dep.negative_features, fset));
}

/// *Symmetric feature coverage, missing half.* Without a wildcard, a
/// feature of the table entry that the candidate does not enable rejects
/// the candidate.
pub proof fn lemma_missing_feature_rejects(
    name: Seq<char>,
    version: Seq<char>,
    f_text: Seq<char>,
    dep: DepSpec,
    i: int,
)
    requires
        version == dep.version,
        f_text.len() > 0,
        wildcard_index(dep.features) is None,
        0 <= i < dep.features.len(),
        !feature_set_for(spec_split(f_text, ','), name).contains(dep.features[i]),
    ensures
        spec_check_dep(name, version, f_text, dep) == Some(DepIssue::Features { name }),
{
    let fset = feature_set_for(spec_split(f_text, ','), name);
    assert(!features_covered(dep.features, fset));
}

/// *Symmetric feature coverage, surplus half.* Without a wildcard, a
/// candidate whose enabled feature count differs from the table entry's —
/// extra features included — is rejected: the sets must agree exactly, not
/// merely contain one another.
pub proof fn lemma_surplus_features_reject(
    name: Seq<char>,
    version: Seq<char>,
    f_text: Seq<char>,
    dep: DepSpec,
)
    requires
        version == dep.version,
        f_text.len() > 0,
        wildcard_index(dep.features) is None,
        feature_set_for(spec_split(f_text, ','), name).len() != dep.features.len(),
    ensures
        spec_check_dep(name, version, f_text, dep) == Some(DepIssue::Features { name }),
{
    let fset = feature_set_for(spec_split(f_text, ','), name);
    assert(!features_covered(dep.features, fset));
}

} // verus!
