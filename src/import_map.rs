use vstd::prelude::*;

use crate::mapping::{
    import_mapping_to_result, interpret, replace_model, ImportMapResult, ImportMapping,
    MappingModel, ResultModel,
};
use crate::path::{relative_path, FileSystemPath};
use crate::text::{has_prefix, has_suffix, strip_trailing_slash, without_trailing_slash};

verus! {

/// `i` is the first position of `hits` that holds `true`.
pub open spec fn is_first_hit(hits: Seq<bool>, i: int) -> bool {
    &&& 0 <= i < hits.len()
    &&& hits[i]
    &&& forall|j: int| 0 <= j < i ==> !hits[j]
}

/// The first position of `hits` that holds `true`, if any.
pub open spec fn first_hit(hits: Seq<bool>) -> Option<int> {
    if exists|i: int| is_first_hit(hits, i) {
        Some(choose|i: int| is_first_hit(hits, i))
    } else {
        None
    }
}

/// The first hit wins, whatever hits come after it.
pub proof fn lemma_first_hit_wins(hits: Seq<bool>, i: int)
    requires
        is_first_hit(hits, i),
    ensures
        first_hit(hits) == Some(i),
{
    let k = choose|k: int| is_first_hit(hits, k);
    assert(is_first_hit(hits, k));
    if k < i {
        assert(!hits[k]);
    }
    if k > i {
        assert(!hits[i]);
    }
}

/// With no hit at all there is no first one.
pub proof fn lemma_no_hit(hits: Seq<bool>)
    requires
        forall|i: int| 0 <= i < hits.len() ==> !hits[i],
    ensures
        first_hit(hits) is None,
{
}

/// A glob pattern, kept as its source text. Matching a glob against a string
/// is the work of a glob engine; the lookups below take its answers.
#[derive(Debug, PartialEq, Eq, Hash)]
pub struct Glob {
    pub pattern: String,
}

/// A key of the alias table: an exact request, or a request with one wildcard
/// between a fixed prefix and a fixed suffix.
#[derive(Debug, PartialEq, Eq, Hash)]
pub enum AliasPattern {
    Exact(String),
    Wildcard { prefix: String, suffix: String },
}

/// Whether `pattern` matches the request `q`.
pub open spec fn pattern_matches(pattern: AliasPattern, q: Seq<char>) -> bool {
    match pattern {
        AliasPattern::Exact(key) => q == key@,
        AliasPattern::Wildcard { prefix, suffix } => {
            &&& prefix@.len() + suffix@.len() <= q.len()
            &&& q.subrange(0, prefix@.len() as int) == prefix@
            &&& q.subrange(q.len() - suffix@.len(), q.len() as int) == suffix@
        },
    }
}

/// The mapping that a matching entry yields for `q`: an exact key yields its
/// mapping as it is; a wildcard key yields it with the captured middle of `q`
/// put in place of `*`.
pub open spec fn matched_mapping(pattern: AliasPattern, m: MappingModel, q: Seq<char>) -> MappingModel {
    match pattern {
        AliasPattern::Exact(_) => m,
        AliasPattern::Wildcard { prefix, suffix } => replace_model(
            m,
            q.subrange(prefix@.len() as int, q.len() - suffix@.len()),
        ),
    }
}

/// For each entry of the table, whether its key matches `q`.
pub open spec fn alias_hits(entries: Seq<(AliasPattern, ImportMapping)>, q: Seq<char>) -> Seq<bool> {
    Seq::new(entries.len(), |i: int| pattern_matches(entries[i].0, q))
}

/// The mapping that the table gives for `q`: that of the first entry, in
/// insertion order, whose key matches.
pub open spec fn alias_lookup(entries: Seq<(AliasPattern, ImportMapping)>, q: Seq<char>) -> Option<
    MappingModel,
> {
    match first_hit(alias_hits(entries, q)) {
        Some(i) => Some(matched_mapping(entries[i].0, entries[i].1@, q)),
        None => None,
    }
}

/// An alias table: keys that are exact requests or one-wildcard patterns,
/// consulted in insertion order.
#[derive(Debug)]
pub struct AliasMap {
    pub entries: Vec<(AliasPattern, ImportMapping)>,
}

impl AliasMap {
    /// An empty table.
    pub fn new() -> (r: AliasMap)
        ensures
            r.entries@.len() == 0,
    {
        AliasMap { entries: Vec::new() }
    }

    /// Adds an entry after all others.
    pub fn insert(&mut self, pattern: AliasPattern, mapping: ImportMapping)
        ensures
            final(self).entries@ == old(self).entries@.push((pattern, mapping)),
    {
        self.entries.push((pattern, mapping));
    }

    /// Whether `pattern` matches `q`.
    fn matches(pattern: &AliasPattern, q: &str) -> (r: bool)
        ensures
            r == pattern_matches(*pattern, q@),
    {
        match pattern {
            AliasPattern::Exact(key) => {
                let k: &str = key.as_str();
                let r = has_prefix(q, k) && k.unicode_len() == q.unicode_len();
                proof {
                    assert(q@.subrange(0, q@.len() as int) =~= q@);
                }
                r
            },
            AliasPattern::Wildcard { prefix, suffix } => {
                let p: &str = prefix.as_str();
                let s: &str = suffix.as_str();
                p.unicode_len() as u128 + s.unicode_len() as u128 <= q.unicode_len() as u128
                    && has_prefix(q, p) && has_suffix(q, s)
            },
        }
    }

    /// The mapping of the first entry whose key matches `q`, with the
    /// wildcard's capture substituted.
    pub fn lookup(&self, q: &str) -> (r: Option<ImportMapping>)
        ensures
            r matches Some(m) ==> alias_lookup(self.entries@, q@) == Some(m@),
            r is None ==> alias_lookup(self.entries@, q@) is None,
    {
        let n = self.entries.len();
        let ghost hits = alias_hits(self.entries@, q@);
        let mut i: usize = 0;
        while i < n
            invariant
                n == self.entries@.len(),
                hits == alias_hits(self.entries@, q@),
                i <= n,
                forall|j: int| 0 <= j < i ==> !hits[j],
            decreases n - i,
        {
            let (pattern, mapping) = &self.entries[i];
            if Self::matches(pattern, q) {
                proof {
                    lemma_first_hit_wins(hits, i as int);
                }
                let r = match pattern {
                    AliasPattern::Exact(_) => mapping.clone(),
                    AliasPattern::Wildcard { prefix, suffix } => {
                        let m = q.unicode_len();
                        let capture = q.substring_char(
                            prefix.as_str().unicode_len(),
                            m - suffix.as_str().unicode_len(),
                        );
                        mapping.replace(capture)
                    },
                };
                return Some(r);
            }
            i = i + 1;
        }
        proof {
            lemma_no_hit(hits);
        }
        None
    }
}


/// The outcome of the glob rules: the interpretation of the first rule whose
/// glob matched (`hits[i]` tells whether the `i`-th glob matched), or no entry.
pub open spec fn glob_rules_result(rules: Seq<(Glob, ImportMapping)>, hits: Seq<bool>) -> ResultModel {
    match first_hit(hits) {
        Some(i) => interpret(rules[i].1@),
        None => ResultModel::NoEntry,
    }
}

/// What an import map gives for a request. An absent request gives no entry.
/// Otherwise the alias table is asked first, with the request as it is; only
/// when it has no entry do the glob rules decide, where `hits[i]` tells whether
/// the `i`-th glob matched the request without one trailing `/`.
pub open spec fn import_map_lookup(map: ImportMap, request: Option<Seq<char>>, hits: Seq<bool>) -> ResultModel {
    match request {
        None => ResultModel::NoEntry,
        Some(q) => match alias_lookup(map.direct.entries@, q) {
            Some(m) => interpret(m),
            None => glob_rules_result(map.by_glob@, hits),
        },
    }
}

/// Rewrite rules for requests: an alias table, then glob rules in order.
#[derive(Debug)]
pub struct ImportMap {
    pub direct: AliasMap,
    pub by_glob: Vec<(Glob, ImportMapping)>,
}

impl Default for ImportMap {
    fn default() -> (r: Self)
        ensures
            r.direct.entries@.len() == 0,
            r.by_glob@.len() == 0,
    {
        ImportMap::new()
    }
}

impl ImportMap {
    /// An import map with no rules.
    pub fn new() -> (r: ImportMap)
        ensures
            r.direct.entries@.len() == 0,
            r.by_glob@.len() == 0,
    {
        ImportMap { direct: AliasMap::new(), by_glob: Vec::new() }
    }

    /// The text that the glob rules are matched against for `request`: the
    /// request without one trailing `/`.
    pub fn glob_subject(request: &str) -> (r: &str)
        ensures
            r@ == without_trailing_slash(request@),
    {
        strip_trailing_slash(request)
    }

    /// The outcome for `request`, given for each glob rule whether its glob
    /// matched `glob_subject(request)`.
    pub fn lookup(&self, request: Option<&str>, glob_hits: &Vec<bool>) -> (r: ImportMapResult)
        requires
            glob_hits@.len() == self.by_glob@.len(),
        ensures
            r@ == import_map_lookup(
                *self,
                match request {
                    Some(q) => Some(q@),
                    None => None,
                },
                glob_hits@,
            ),
    {
        let q = match request {
            Some(q) => q,
            None => return ImportMapResult::NoEntry,
        };
        if let Some(mapping) = self.direct.lookup(q) {
            return import_mapping_to_result(&mapping);
        }
        let n = self.by_glob.len();
        let mut i: usize = 0;
        while i < n
            invariant
                n == self.by_glob@.len(),
                n == glob_hits@.len(),
                request == Some(q),
                alias_lookup(self.direct.entries@, q@) is None,
                i <= n,
                forall|j: int| 0 <= j < i ==> !glob_hits@[j],
            decreases n - i,
        {
            if glob_hits[i] {
                proof {
                    lemma_first_hit_wins(glob_hits@, i as int);
                }
                return import_mapping_to_result(&self.by_glob[i].1);
            }
            i = i + 1;
        }
        proof {
            lemma_no_hit(glob_hits@);
        }
        ImportMapResult::NoEntry
    }
}

/// A request that the alias table maps is decided by the alias table, whatever
/// the glob rules would say.
pub proof fn lemma_direct_before_glob(map: ImportMap, q: Seq<char>, hits: Seq<bool>)
    requires
        alias_lookup(map.direct.entries@, q) is Some,
    ensures
        import_map_lookup(map, Some(q), hits) == interpret(
            alias_lookup(map.direct.entries@, q)->Some_0,
        ),
{
}

/// Among the glob rules the first one that matches decides, even where a later
/// one matches too.
pub proof fn lemma_first_glob_wins(map: ImportMap, q: Seq<char>, hits: Seq<bool>, i: int)
    requires
        alias_lookup(map.direct.entries@, q) is None,
        is_first_hit(hits, i),
    ensures
        import_map_lookup(map, Some(q), hits) == interpret(map.by_glob@[i].1@),
{
    lemma_first_hit_wins(hits, i);
}

/// A request and the same request with a `/` appended are matched against the
/// globs as the same text, while the alias table sees each as it is.
pub proof fn lemma_trailing_slash_only_for_globs(map: ImportMap, q: Seq<char>, hits: Seq<bool>)
    requires
        !(q.len() > 0 && q.last() == '/'),
    ensures
        without_trailing_slash(q.push('/')) == without_trailing_slash(q),
        alias_lookup(map.direct.entries@, q) is None && alias_lookup(
            map.direct.entries@,
            q.push('/'),
        ) is None ==> import_map_lookup(map, Some(q.push('/')), hits) == import_map_lookup(
            map,
            Some(q),
            hits,
        ),
{
    assert(q.push('/').drop_last() =~= q);
}

/// For each rule of a resolved map, whether it applies to `resolved`: its root
/// holds the path and its glob matched the path relative to that root
/// (`hits[i]`).
pub open spec fn resolved_hits(
    rules: Seq<(FileSystemPath, Glob, ImportMapping)>,
    resolved: (u64, Seq<char>),
    hits: Seq<bool>,
) -> Seq<bool> {
    Seq::new(
        rules.len(),
        |i: int| relative_path(rules[i].0@, resolved) is Some && hits[i],
    )
}

/// What a resolved map gives for a resolved path: the interpretation of the
/// first rule that applies, or no entry.
pub open spec fn resolved_map_lookup(
    map: ResolvedMap,
    resolved: (u64, Seq<char>),
    hits: Seq<bool>,
) -> ResultModel {
    match first_hit(resolved_hits(map.by_glob@, resolved, hits)) {
        Some(i) => interpret(map.by_glob@[i].2@),
        None => ResultModel::NoEntry,
    }
}

/// Rewrite rules for resolved paths: each rule is a root, a glob over paths
/// relative to that root, and a mapping; the first rule that applies wins.
#[derive(Debug)]
pub struct ResolvedMap {
    pub by_glob: Vec<(FileSystemPath, Glob, ImportMapping)>,
}

impl Default for ResolvedMap {
    fn default() -> (r: Self)
        ensures
            r.by_glob@.len() == 0,
    {
        ResolvedMap::new()
    }
}

impl ResolvedMap {
    /// A resolved map with no rules.
    pub fn new() -> (r: ResolvedMap)
        ensures
            r.by_glob@.len() == 0,
    {
        ResolvedMap { by_glob: Vec::new() }
    }

    /// For each rule, the text its glob is matched against for `resolved`:
    /// the path relative to the rule's root, or nothing where the root does
    /// not hold the path.
    pub fn glob_subjects(&self, resolved: &FileSystemPath) -> (r: Vec<Option<String>>)
        ensures
            r@.len() == self.by_glob@.len(),
            forall|i: int|
                0 <= i < r@.len() ==> match #[trigger] r@[i] {
                    Some(s) => relative_path(self.by_glob@[i].0@, resolved@) == Some(s@),
                    None => relative_path(self.by_glob@[i].0@, resolved@) is None,
                },
    {
        let n = self.by_glob.len();
        let mut out: Vec<Option<String>> = Vec::new();
        let mut i: usize = 0;
        while i < n
            invariant
                n == self.by_glob@.len(),
                i <= n,
                out@.len() == i,
                forall|j: int|
                    0 <= j < i ==> match #[trigger] out@[j] {
                        Some(s) => relative_path(self.by_glob@[j].0@, resolved@) == Some(s@),
                        None => relative_path(self.by_glob@[j].0@, resolved@) is None,
                    },
            decreases n - i,
        {
            out.push(self.by_glob[i].0.get_path_to(resolved));
            i = i + 1;
        }
        out
    }

    /// The outcome for `resolved`, given for each rule whether its glob
    /// matched the path relative to the rule's root (ignored for rules whose
    /// root does not hold the path).
    pub fn lookup(&self, resolved: &FileSystemPath, glob_hits: &Vec<bool>) -> (r: ImportMapResult)
        requires
            glob_hits@.len() == self.by_glob@.len(),
        ensures
            r@ == resolved_map_lookup(*self, resolved@, glob_hits@),
    {
        let n = self.by_glob.len();
        let ghost hits = resolved_hits(self.by_glob@, resolved@, glob_hits@);
        let mut i: usize = 0;
        while i < n
            invariant
                n == self.by_glob@.len(),
                n == glob_hits@.len(),
                hits == resolved_hits(self.by_glob@, resolved@, glob_hits@),
                i <= n,
                forall|j: int| 0 <= j < i ==> !hits[j],
            decreases n - i,
        {
            let (root, _glob, mapping) = &self.by_glob[i];
            let under_root = root.get_path_to(resolved).is_some();
            if under_root && glob_hits[i] {
                proof {
                    lemma_first_hit_wins(hits, i as int);
                }
                return import_mapping_to_result(mapping);
            }
            i = i + 1;
        }
        proof {
            lemma_no_hit(hits);
        }
        ImportMapResult::NoEntry
    }
}

/// A rule whose root does not hold the resolved path never decides, whatever
/// its glob would say.
pub proof fn lemma_foreign_root_skipped(
    map: ResolvedMap,
    resolved: (u64, Seq<char>),
    hits: Seq<bool>,
    i: int,
)
    requires
        0 <= i < map.by_glob@.len(),
        hits.len() == map.by_glob@.len(),
        relative_path(map.by_glob@[i].0@, resolved) is None,
    ensures
        first_hit(resolved_hits(map.by_glob@, resolved, hits)) != Some(i),
{
    let h = resolved_hits(map.by_glob@, resolved, hits);
    if exists|k: int| is_first_hit(h, k) {
        let k = choose|k: int| is_first_hit(h, k);
        assert(h[k]);
        assert(!h[i]);
    }
}

} // verus!
