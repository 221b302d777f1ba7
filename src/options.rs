use vstd::prelude::*;

use crate::condition::ConditionValue;
use crate::import_map::{ImportMap, ResolvedMap};
use crate::path::FileSystemPath;

verus! {

/// A token for the versions that a lockfile pins; what it stands for is read
/// by the code that lays out a registry.
#[derive(PartialEq, Eq, Structural, Clone, Copy, Debug, Hash)]
pub struct LockedVersions {}

/// A place where modules are searched for.
#[derive(Debug, PartialEq, Eq, Hash)]
pub enum ResolveModules {
    /// Inside the given path, search each of the named directories.
    Nested(FileSystemPath, Vec<String>),
    /// Search exactly this directory.
    Path(FileSystemPath),
    /// Resolve through a registry laid out as `@scope/name/version/...`,
    /// choosing versions from a lockfile.
    Registry(FileSystemPath, LockedVersions),
}

/// The abstract value of a [`ResolveModules`].
pub enum ModulesModel {
    Nested((u64, Seq<char>), Seq<Seq<char>>),
    Path((u64, Seq<char>)),
    Registry((u64, Seq<char>)),
}

impl View for ResolveModules {
    type V = ModulesModel;

    open spec fn view(&self) -> ModulesModel {
        match self {
            ResolveModules::Nested(p, dirs) => ModulesModel::Nested(
                p@,
                dirs@.map_values(|d: String| d@),
            ),
            ResolveModules::Path(p) => ModulesModel::Path(p@),
            ResolveModules::Registry(p, _) => ModulesModel::Registry(p@),
        }
    }
}

fn clone_strings(v: &Vec<String>) -> (r: Vec<String>)
    ensures
        r@ == v@,
{
    let n = v.len();
    let mut out: Vec<String> = Vec::new();
    let mut i: usize = 0;
    while i < n
        invariant
            n == v@.len(),
            i <= n,
            out@ == v@.subrange(0, i as int),
        decreases n - i,
    {
        out.push(v[i].clone());
        proof {
            assert(out@ =~= v@.subrange(0, i + 1));
        }
        i = i + 1;
    }
    proof {
        assert(v@.subrange(0, n as int) =~= v@);
    }
    out
}

impl Clone for ResolveModules {
    fn clone(&self) -> (r: Self)
        ensures
            r@ == self@,
    {
        match self {
            ResolveModules::Nested(p, dirs) => ResolveModules::Nested(p.clone(), clone_strings(dirs)),
            ResolveModules::Path(p) => ResolveModules::Path(p.clone()),
            ResolveModules::Registry(p, v) => ResolveModules::Registry(p.clone(), *v),
        }
    }
}

/// The abstract value of a list of search places, in order.
pub open spec fn modules_view(modules: Seq<ResolveModules>) -> Seq<ModulesModel> {
    modules.map_values(|m: ResolveModules| m@)
}

/// A way to enter a package directory.
#[derive(Debug, PartialEq, Eq, Clone)]
pub enum ResolveIntoPackage {
    /// Evaluate an exports-like field under the given conditions; a condition
    /// absent from `conditions` takes `unspecified_conditions`.
    ExportsField {
        field: String,
        conditions: std::collections::BTreeMap<String, ConditionValue>,
        unspecified_conditions: ConditionValue,
    },
    /// Use the path in a main-like field.
    MainField(String),
    /// Use a fixed default entry file.
    Default(String),
}

/// All that shapes a resolution: extensions to try, where to search for
/// modules, how to enter packages, and the optional rewrite maps.
#[derive(Debug)]
pub struct ResolveOptions {
    pub extensions: Vec<String>,
    /// The places where modules are searched for, in order.
    pub modules: Vec<ResolveModules>,
    /// The ways to enter a package, in order.
    pub into_package: Vec<ResolveIntoPackage>,
    pub import_map: Option<ImportMap>,
    pub resolved_map: Option<ResolvedMap>,
}

/// The part of the options that module search reads.
#[derive(Debug)]
pub struct ResolveModulesOptions {
    pub modules: Vec<ResolveModules>,
}

fn clone_modules(v: &Vec<ResolveModules>) -> (r: Vec<ResolveModules>)
    ensures
        modules_view(r@) == modules_view(v@),
{
    let n = v.len();
    let mut out: Vec<ResolveModules> = Vec::new();
    let mut i: usize = 0;
    while i < n
        invariant
            n == v@.len(),
            i <= n,
            out@.len() == i,
            forall|j: int| 0 <= j < i ==> (#[trigger] out@[j])@ == v@[j]@,
        decreases n - i,
    {
        out.push(v[i].clone());
        i = i + 1;
    }
    proof {
        assert(modules_view(out@) =~= modules_view(v@));
    }
    out
}

impl ResolveOptions {
    /// The search places alone, in the same order.
    pub fn modules(&self) -> (r: ResolveModulesOptions)
        ensures
            modules_view(r.modules@) == modules_of(*self),
    {
        ResolveModulesOptions { modules: clone_modules(&self.modules) }
    }
}

/// The search places of `options` alone, in the same order.
pub fn resolve_modules_options(options: &ResolveOptions) -> (r: ResolveModulesOptions)
    ensures
        modules_view(r.modules@) == modules_of(*options),
{
    options.modules()
}

/// The search-place view of a set of options.
pub open spec fn modules_of(options: ResolveOptions) -> Seq<ModulesModel> {
    modules_view(options.modules@)
}

/// The search-place view depends on the search places alone: options that
/// differ only in extensions, package entry, or rewrite maps give the same view.
pub proof fn lemma_modules_view_isolated(a: ResolveOptions, b: ResolveOptions)
    requires
        a.modules@ == b.modules@,
    ensures
        modules_of(a) == modules_of(b),
{
}

impl Default for ResolveOptions {
    fn default() -> (r: Self)
        ensures
            r.extensions@.len() == 0,
            r.modules@.len() == 0,
            r.into_package@.len() == 0,
            r.import_map is None,
            r.resolved_map is None,
    {
        ResolveOptions {
            extensions: Vec::new(),
            modules: Vec::new(),
            into_package: Vec::new(),
            import_map: None,
            resolved_map: None,
        }
    }
}

} // verus!
