use vstd::prelude::*;

use crate::path::FileSystemPath;
use crate::text::{replace_star, replace_wildcard};

verus! {

broadcast use vstd::std_specs::vec::group_vec_axioms;

/// The abstract value of an optional root path.
pub open spec fn root_view(root: Option<FileSystemPath>) -> Option<(u64, Seq<char>)> {
    match root {
        Some(p) => Some(p@),
        None => None,
    }
}

/// One rewrite action for a request.
#[derive(Debug, PartialEq, Eq, Hash)]
pub enum ImportMapping {
    /// Resolve to a runtime-external reference, optionally under another name.
    External(Option<String>),
    /// Resolve this request first (optionally from the given root); the caller
    /// falls back to the original request when that fails.
    PrimaryAlternative(String, Option<FileSystemPath>),
    /// Resolve to an intentionally ignored module.
    Ignore,
    /// Resolve to an empty module.
    Empty,
    /// Try these mappings in order; the first usable outcome wins.
    Alternatives(Vec<ImportMapping>),
}

/// The abstract value of an [`ImportMapping`].
pub enum MappingModel {
    External(Option<Seq<char>>),
    PrimaryAlternative(Seq<char>, Option<(u64, Seq<char>)>),
    Ignore,
    Empty,
    Alternatives(Seq<MappingModel>),
}

/// The abstract value of a mapping, level by level.
pub open spec fn mapping_model(m: ImportMapping) -> MappingModel
    decreases m,
{
    match m {
        ImportMapping::External(name) => MappingModel::External(
            match name {
                Some(n) => Some(n@),
                None => None,
            },
        ),
        ImportMapping::PrimaryAlternative(name, root) => MappingModel::PrimaryAlternative(
            name@,
            root_view(root),
        ),
        ImportMapping::Ignore => MappingModel::Ignore,
        ImportMapping::Empty => MappingModel::Empty,
        ImportMapping::Alternatives(list) => MappingModel::Alternatives(
            Seq::new(
                list@.len(),
                |i: int|
                    if 0 <= i < list@.len() {
                        mapping_model(list@[i])
                    } else {
                        MappingModel::Ignore
                    },
            ),
        ),
    }
}

impl View for ImportMapping {
    type V = MappingModel;

    open spec fn view(&self) -> MappingModel {
        mapping_model(*self)
    }
}

/// The mapping with every `*` of its strings replaced by `capture`; roots and
/// the shape of the mapping stay as they are.
pub open spec fn replace_model(m: MappingModel, capture: Seq<char>) -> MappingModel
    decreases m,
{
    match m {
        MappingModel::External(name) => MappingModel::External(
            match name {
                Some(n) => Some(replace_star(n, capture)),
                None => None,
            },
        ),
        MappingModel::PrimaryAlternative(name, root) => MappingModel::PrimaryAlternative(
            replace_star(name, capture),
            root,
        ),
        MappingModel::Ignore => MappingModel::Ignore,
        MappingModel::Empty => MappingModel::Empty,
        MappingModel::Alternatives(list) => MappingModel::Alternatives(
            Seq::new(
                list.len(),
                |i: int|
                    if 0 <= i < list.len() {
                        replace_model(list[i], capture)
                    } else {
                        MappingModel::Ignore
                    },
            ),
        ),
    }
}

/// Two mappings have the same shape: the same variant at every level, and
/// alternative lists of the same length.
pub open spec fn same_shape(a: MappingModel, b: MappingModel) -> bool
    decreases a,
{
    match (a, b) {
        (MappingModel::External(x), MappingModel::External(y)) => x is Some == y is Some,
        (MappingModel::PrimaryAlternative(_, r1), MappingModel::PrimaryAlternative(_, r2)) => r1
            == r2,
        (MappingModel::Ignore, MappingModel::Ignore) => true,
        (MappingModel::Empty, MappingModel::Empty) => true,
        (MappingModel::Alternatives(l1), MappingModel::Alternatives(l2)) => l1.len() == l2.len()
            && forall|i: int| 0 <= i < l1.len() ==> same_shape(#[trigger] l1[i], l2[i]),
        _ => false,
    }
}

/// The mapping that a list of primary alternatives stands for.
pub open spec fn primary_alternatives_model(
    list: Seq<Seq<char>>,
    root: Option<(u64, Seq<char>)>,
) -> MappingModel {
    if list.len() == 0 {
        MappingModel::Ignore
    } else if list.len() == 1 {
        MappingModel::PrimaryAlternative(list[0], root)
    } else {
        MappingModel::Alternatives(
            Seq::new(list.len(), |i: int| MappingModel::PrimaryAlternative(list[i], root)),
        )
    }
}

fn clone_root(root: &Option<FileSystemPath>) -> (r: Option<FileSystemPath>)
    ensures
        r == *root,
{
    match root {
        Some(p) => Some(p.clone()),
        None => None,
    }
}

impl Clone for ImportMapping {
    fn clone(&self) -> (r: Self)
        ensures
            r@ == self@,
        decreases self,
    {
        match self {
            ImportMapping::External(name) => match name {
                Some(n) => ImportMapping::External(Some(n.clone())),
                None => ImportMapping::External(None),
            },
            ImportMapping::PrimaryAlternative(name, root) => ImportMapping::PrimaryAlternative(
                name.clone(),
                clone_root(root),
            ),
            ImportMapping::Ignore => ImportMapping::Ignore,
            ImportMapping::Empty => ImportMapping::Empty,
            ImportMapping::Alternatives(list) => {
                let n = list.len();
                let mut out: Vec<ImportMapping> = Vec::new();
                let mut i: usize = 0;
                while i < n
                    invariant
                        n == list.len(),
                        i <= n,
                        out.len() == i,
                        self is Alternatives,
                        self->Alternatives_0 == *list,
                        forall|j: int| 0 <= j < i ==> (#[trigger] out[j])@ == list[j]@,
                    decreases n - i,
                {
                    proof {
                        assert(decreases_to!(*self => self->Alternatives_0));
                        assert(decreases_to!(*list => list[i as int]));
                    }
                    out.push(list[i].clone());
                    i = i + 1;
                }
                let r = ImportMapping::Alternatives(out);
                proof {
                    let o = self@->Alternatives_0;
                    let g = r@->Alternatives_0;
                    assert(forall|k: int| 0 <= k < n ==> #[trigger] o[k] == list[k]@);
                    assert(forall|k: int| 0 <= k < n ==> #[trigger] g[k] == out[k]@);
                    assert(g =~= o);
                }
                r
            },
        }
    }
}

impl ImportMapping {
    /// A mapping that tries each request of `list` in order, from `context`.
    /// No request gives `Ignore`, one gives a single primary alternative.
    pub fn primary_alternatives(list: Vec<String>, context: Option<FileSystemPath>) -> (r:
        ImportMapping)
        ensures
            r@ == primary_alternatives_model(list@.map_values(|s: String| s@), root_view(context)),
    {
        let n = list.len();
        if n == 0 {
            ImportMapping::Ignore
        } else if n == 1 {
            ImportMapping::PrimaryAlternative(list[0].clone(), context)
        } else {
            let mut out: Vec<ImportMapping> = Vec::new();
            let mut i: usize = 0;
            while i < n
                invariant
                    n == list.len(),
                    i <= n,
                    out.len() == i,
                    forall|j: int|
                        0 <= j < i ==> (#[trigger] out[j])@ == MappingModel::PrimaryAlternative(
                            list[j]@,
                            root_view(context),
                        ),
                decreases n - i,
            {
                out.push(ImportMapping::PrimaryAlternative(list[i].clone(), clone_root(&context)));
                i = i + 1;
            }
            let r = ImportMapping::Alternatives(out);
            proof {
                let lm = list@.map_values(|s: String| s@);
                if let MappingModel::Alternatives(got) = r@ {
                    assert(got =~= Seq::new(
                        lm.len(),
                        |i: int| MappingModel::PrimaryAlternative(lm[i], root_view(context)),
                    ));
                }
            }
            r
        }
    }

    /// Substitutes `capture` for every `*` in the strings this mapping holds.
    pub fn replace(&self, capture: &str) -> (r: ImportMapping)
        ensures
            r@ == replace_model(self@, capture@),
        decreases self,
    {
        match self {
            ImportMapping::External(name) => match name {
                Some(n) => ImportMapping::External(Some(replace_wildcard(n.as_str(), capture))),
                None => ImportMapping::External(None),
            },
            ImportMapping::PrimaryAlternative(name, root) => ImportMapping::PrimaryAlternative(
                replace_wildcard(name.as_str(), capture),
                clone_root(root),
            ),
            ImportMapping::Ignore => ImportMapping::Ignore,
            ImportMapping::Empty => ImportMapping::Empty,
            ImportMapping::Alternatives(list) => {
                let n = list.len();
                let mut out: Vec<ImportMapping> = Vec::new();
                let mut i: usize = 0;
                while i < n
                    invariant
                        n == list.len(),
                        i <= n,
                        out.len() == i,
                        self is Alternatives,
                        self->Alternatives_0 == *list,
                        forall|j: int|
                            0 <= j < i ==> (#[trigger] out[j])@ == replace_model(
                                list[j]@,
                                capture@,
                            ),
                    decreases n - i,
                {
                    proof {
                        assert(decreases_to!(*self => self->Alternatives_0));
                        assert(decreases_to!(*list => list[i as int]));
                    }
                    out.push(list[i].replace(capture));
                    i = i + 1;
                }
                let r = ImportMapping::Alternatives(out);
                proof {
                    let o = self@->Alternatives_0;
                    let w = replace_model(self@, capture@)->Alternatives_0;
                    let g = r@->Alternatives_0;
                    assert(o.len() == n);
                    assert(forall|k: int| 0 <= k < n ==> #[trigger] o[k] == list[k]@);
                    assert(forall|k: int| 0 <= k < n ==> #[trigger] g[k] == out[k]@);
                    assert(forall|k: int|
                        0 <= k < n ==> #[trigger] w[k] == replace_model(o[k], capture@));
                    assert(g =~= w);
                }
                r
            },
        }
    }
}



/// Replacing the capture keeps the variant at every level and the length of
/// every alternative list; a mapping that holds no string comes back as it was.
pub proof fn lemma_replace_keeps_shape(m: MappingModel, capture: Seq<char>)
    ensures
        same_shape(m, replace_model(m, capture)),
        m is Ignore ==> replace_model(m, capture) == m,
        m is Empty ==> replace_model(m, capture) == m,
        m matches MappingModel::PrimaryAlternative(_, root) ==> replace_model(
            m,
            capture,
        )->PrimaryAlternative_1 == root,
    decreases m,
{
    if let MappingModel::Alternatives(list) = m {
        let r = replace_model(m, capture)->Alternatives_0;
        assert forall|i: int| 0 <= i < list.len() implies same_shape(#[trigger] list[i], r[i]) by {
            lemma_replace_keeps_shape(list[i], capture);
        }
    }
}

/// A terminal outcome that needs no file.
#[derive(Debug, PartialEq, Eq, Hash)]
pub enum SpecialType {
    /// An external reference under the original request.
    OriginalReferenceExternal,
    /// An external reference under the given name.
    OriginalReferenceTypeExternal(String),
    /// An intentionally ignored module.
    Ignore,
    /// An empty module.
    Empty,
}

/// The abstract value of a [`SpecialType`].
pub enum SpecialModel {
    OriginalReferenceExternal,
    OriginalReferenceTypeExternal(Seq<char>),
    Ignore,
    Empty,
}

impl View for SpecialType {
    type V = SpecialModel;

    open spec fn view(&self) -> SpecialModel {
        match self {
            SpecialType::OriginalReferenceExternal => SpecialModel::OriginalReferenceExternal,
            SpecialType::OriginalReferenceTypeExternal(n) => SpecialModel::OriginalReferenceTypeExternal(n@),
            SpecialType::Ignore => SpecialModel::Ignore,
            SpecialType::Empty => SpecialModel::Empty,
        }
    }
}

/// The outcome of applying a mapping to a request.
#[derive(Debug, PartialEq, Eq, Hash)]
pub enum ImportMapResult {
    /// A finished resolution.
    Result(SpecialType),
    /// Resolve this request instead (from the given root, if any).
    Alias(String, Option<FileSystemPath>),
    /// Try these outcomes in order.
    Alternatives(Vec<ImportMapResult>),
    /// No rule applies: resolve as usual.
    NoEntry,
}

/// The abstract value of an [`ImportMapResult`].
pub enum ResultModel {
    Result(SpecialModel),
    Alias(Seq<char>, Option<(u64, Seq<char>)>),
    Alternatives(Seq<ResultModel>),
    NoEntry,
}

/// The abstract value of an outcome, level by level.
pub open spec fn result_model(r: ImportMapResult) -> ResultModel
    decreases r,
{
    match r {
        ImportMapResult::Result(t) => ResultModel::Result(t@),
        ImportMapResult::Alias(req, root) => ResultModel::Alias(req@, root_view(root)),
        ImportMapResult::Alternatives(list) => ResultModel::Alternatives(
            Seq::new(
                list@.len(),
                |i: int|
                    if 0 <= i < list@.len() {
                        result_model(list@[i])
                    } else {
                        ResultModel::NoEntry
                    },
            ),
        ),
        ImportMapResult::NoEntry => ResultModel::NoEntry,
    }
}

impl View for ImportMapResult {
    type V = ResultModel;

    open spec fn view(&self) -> ResultModel {
        result_model(*self)
    }
}

/// What a mapping means as an outcome: terminal outcomes for external, ignored
/// and empty modules, a redirect for a primary alternative, and the outcomes
/// of the alternatives in their order.
pub open spec fn interpret(m: MappingModel) -> ResultModel
    decreases m,
{
    match m {
        MappingModel::External(None) => ResultModel::Result(SpecialModel::OriginalReferenceExternal),
        MappingModel::External(Some(name)) => ResultModel::Result(
            SpecialModel::OriginalReferenceTypeExternal(name),
        ),
        MappingModel::Ignore => ResultModel::Result(SpecialModel::Ignore),
        MappingModel::Empty => ResultModel::Result(SpecialModel::Empty),
        MappingModel::PrimaryAlternative(name, root) => ResultModel::Alias(name, root),
        MappingModel::Alternatives(list) => ResultModel::Alternatives(
            Seq::new(
                list.len(),
                |i: int|
                    if 0 <= i < list.len() {
                        interpret(list[i])
                    } else {
                        ResultModel::NoEntry
                    },
            ),
        ),
    }
}

/// Turns a mapping into the outcome it stands for.
pub fn import_mapping_to_result(mapping: &ImportMapping) -> (r: ImportMapResult)
    ensures
        r@ == interpret(mapping@),
    decreases mapping,
{
    match mapping {
        ImportMapping::External(name) => match name {
            Some(n) => ImportMapResult::Result(
                SpecialType::OriginalReferenceTypeExternal(n.clone()),
            ),
            None => ImportMapResult::Result(SpecialType::OriginalReferenceExternal),
        },
        ImportMapping::Ignore => ImportMapResult::Result(SpecialType::Ignore),
        ImportMapping::Empty => ImportMapResult::Result(SpecialType::Empty),
        ImportMapping::PrimaryAlternative(name, root) => ImportMapResult::Alias(
            name.clone(),
            clone_root(root),
        ),
        ImportMapping::Alternatives(list) => {
            let n = list.len();
            let mut out: Vec<ImportMapResult> = Vec::new();
            let mut i: usize = 0;
            while i < n
                invariant
                    n == list.len(),
                    i <= n,
                    out.len() == i,
                    mapping is Alternatives,
                    mapping->Alternatives_0 == *list,
                    forall|j: int| 0 <= j < i ==> (#[trigger] out[j])@ == interpret(list[j]@),
                decreases n - i,
            {
                proof {
                    assert(decreases_to!(*mapping => mapping->Alternatives_0));
                    assert(decreases_to!(*list => list[i as int]));
                }
                out.push(import_mapping_to_result(&list[i]));
                i = i + 1;
            }
            let r = ImportMapResult::Alternatives(out);
            proof {
                let o = mapping@->Alternatives_0;
                let w = interpret(mapping@)->Alternatives_0;
                let g = r@->Alternatives_0;
                assert(forall|k: int| 0 <= k < n ==> #[trigger] o[k] == list[k]@);
                assert(forall|k: int| 0 <= k < n ==> #[trigger] g[k] == out[k]@);
                assert(forall|k: int| 0 <= k < n ==> #[trigger] w[k] == interpret(o[k]));
                assert(g =~= w);
            }
            r
        },
    }
}

} // verus!
