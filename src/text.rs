use vstd::prelude::*;
use vstd::string::*;

verus! {

/// What one character of a template becomes when `*` is replaced by `capture`.
pub open spec fn star_piece(ch: char, capture: Seq<char>) -> Seq<char> {
    if ch == '*' {
        capture
    } else {
        seq![ch]
    }
}

/// `s` with every `*` replaced by `capture`.
pub open spec fn replace_star(s: Seq<char>, capture: Seq<char>) -> Seq<char>
    decreases s.len(),
{
    if s.len() == 0 {
        Seq::empty()
    } else {
        replace_star(s.drop_last(), capture) + star_piece(s.last(), capture)
    }
}

/// `s` without one trailing `/`, if it has one.
pub open spec fn without_trailing_slash(s: Seq<char>) -> Seq<char> {
    if s.len() > 0 && s.last() == '/' {
        s.drop_last()
    } else {
        s
    }
}

/// Replaces every `*` of `template` by `capture`.
pub fn replace_wildcard(template: &str, capture: &str) -> (r: String)
    ensures
        r@ == replace_star(template@, capture@),
{
    let n = template.unicode_len();
    let mut r = String::new();
    let mut i: usize = 0;
    while i < n
        invariant
            n == template@.len(),
            i <= n,
            r@ == replace_star(template@.subrange(0, i as int), capture@),
        decreases n - i,
    {
        let ch = template.get_char(i);
        if ch == '*' {
            r.append(capture);
        } else {
            r.append(template.substring_char(i, i + 1));
        }
        proof {
            let next = template@.subrange(0, i + 1);
            assert(next.drop_last() =~= template@.subrange(0, i as int));
        }
        i = i + 1;
    }
    proof {
        assert(template@.subrange(0, n as int) =~= template@);
    }
    r
}

/// Whether `s` begins with `prefix`.
pub fn has_prefix(s: &str, prefix: &str) -> (r: bool)
    ensures
        r == (prefix@.len() <= s@.len() && s@.subrange(0, prefix@.len() as int) == prefix@),
{
    let n = prefix.unicode_len();
    let m = s.unicode_len();
    if n > m {
        return false;
    }
    let mut i: usize = 0;
    while i < n
        invariant
            n == prefix@.len(),
            m == s@.len(),
            n <= m,
            i <= n,
            forall|j: int| 0 <= j < i ==> s@[j] == prefix@[j],
        decreases n - i,
    {
        if s.get_char(i) != prefix.get_char(i) {
            proof {
                assert(s@.subrange(0, n as int)[i as int] != prefix@[i as int]);
            }
            return false;
        }
        i = i + 1;
    }
    proof {
        assert(s@.subrange(0, n as int) =~= prefix@);
    }
    true
}

/// Whether `s` ends with `suffix`.
pub fn has_suffix(s: &str, suffix: &str) -> (r: bool)
    ensures
        r == (suffix@.len() <= s@.len() && s@.subrange(s@.len() - suffix@.len(), s@.len() as int)
            == suffix@),
{
    let n = suffix.unicode_len();
    let m = s.unicode_len();
    if n > m {
        return false;
    }
    let start = m - n;
    let mut i: usize = 0;
    while i < n
        invariant
            n == suffix@.len(),
            m == s@.len(),
            start == m - n,
            i <= n,
            forall|j: int| 0 <= j < i ==> s@[start + j] == suffix@[j],
        decreases n - i,
    {
        if s.get_char(start + i) != suffix.get_char(i) {
            proof {
                assert(s@.subrange(start as int, m as int)[i as int] != suffix@[i as int]);
            }
            return false;
        }
        i = i + 1;
    }
    proof {
        assert(s@.subrange(start as int, m as int) =~= suffix@);
    }
    true
}

/// Drops one trailing `/` from `s`, so that `foo/` and `foo` read alike.
pub fn strip_trailing_slash(s: &str) -> (r: &str)
    ensures
        r@ == without_trailing_slash(s@),
{
    let n = s.unicode_len();
    if n > 0 && s.get_char(n - 1) == '/' {
        s.substring_char(0, n - 1)
    } else {
        s
    }
}

} // verus!
