use vstd::prelude::*;

verus! {

/// Tri-state value of a package-exports condition.
///
/// `IsSet` and `Unset` are explicit choices; `Unknown` records that the caller expressed no preference, which is kept
/// apart from an explicit `Unset`.
#[derive(PartialEq, Eq, Structural, Clone, Copy, Debug, Hash)]
pub enum ConditionValue {
    IsSet,
    Unset,
    Unknown,
}

impl From<bool> for ConditionValue {
    fn from(v: bool) -> (r: Self)
        ensures
            r == condition_of(v),
    {
        if v {
            ConditionValue::IsSet
        } else {
            ConditionValue::Unset
        }
    }
}

impl vstd::std_specs::convert::FromSpecImpl<bool> for ConditionValue {
    open spec fn obeys_from_spec() -> bool {
        true
    }

    open spec fn from_spec(v: bool) -> ConditionValue {
        condition_of(v)
    }
}

/// The condition value that a boolean stands for.
pub open spec fn condition_of(v: bool) -> ConditionValue {
    if v {
        ConditionValue::IsSet
    } else {
        ConditionValue::Unset
    }
}

/// A boolean never converts to `Unknown`; `true` gives `IsSet`, `false` gives `Unset`.
pub proof fn lemma_from_bool_never_unknown(v: bool)
    ensures
        condition_of(v) != ConditionValue::Unknown,
        condition_of(true) == ConditionValue::IsSet,
        condition_of(false) == ConditionValue::Unset,
{
}

} // verus!
