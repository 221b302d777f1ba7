use vstd::prelude::*;
use vstd::string::*;

verus! {

/// A path inside one file system: the file system's identity and the path,
/// written with `/` separators and without a leading `/`.
#[derive(Debug, PartialEq, Eq, Hash)]
pub struct FileSystemPath {
    pub fs: u64,
    pub path: String,
}

impl Clone for FileSystemPath {
    fn clone(&self) -> (r: Self)
        ensures
            r == *self,
    {
        FileSystemPath { fs: self.fs, path: self.path.clone() }
    }
}

impl View for FileSystemPath {
    type V = (u64, Seq<char>);

    open spec fn view(&self) -> (u64, Seq<char>) {
        (self.fs, self.path@)
    }
}

/// The path of `inner` relative to `root`, when `inner` lies at or below
/// `root`: an empty root holds every path of its file system; otherwise the
/// root must be a whole-segment prefix of the inner path.
pub open spec fn relative_path(root: (u64, Seq<char>), inner: (u64, Seq<char>)) -> Option<Seq<char>> {
    let (rfs, r) = root;
    let (ifs, p) = inner;
    if rfs != ifs {
        None
    } else if r.len() == 0 {
        Some(p)
    } else if r.len() <= p.len() && p.subrange(0, r.len() as int) == r {
        if p.len() == r.len() {
            Some(Seq::empty())
        } else if p[r.len() as int] == '/' {
            Some(p.subrange(r.len() as int + 1, p.len() as int))
        } else {
            None
        }
    } else {
        None
    }
}

impl FileSystemPath {
    /// The path from `self` to `inner`, when `inner` lies at or below `self`.
    pub fn get_path_to(&self, inner: &FileSystemPath) -> (r: Option<String>)
        ensures
            r matches Some(s) ==> relative_path(self@, inner@) == Some(s@),
            r is None ==> relative_path(self@, inner@) is None,
    {
        if self.fs != inner.fs {
            return None;
        }
        let root: &str = self.path.as_str();
        let p: &str = inner.path.as_str();
        let n = root.unicode_len();
        let m = p.unicode_len();
        if n == 0 {
            return Some(p.to_owned());
        }
        if n > m {
            return None;
        }
        let mut i: usize = 0;
        while i < n
            invariant
                root@ == self@.1,
                p@ == inner@.1,
                self@.0 == inner@.0,
                n == root@.len(),
                m == p@.len(),
                n <= m,
                i <= n,
                forall|j: int| 0 <= j < i ==> p@[j] == root@[j],
            decreases n - i,
        {
            if p.get_char(i) != root.get_char(i) {
                proof {
                    assert(p@.subrange(0, n as int)[i as int] != root@[i as int]);
                    assert(p@.subrange(0, n as int) != root@);
                }
                return None;
            }
            i = i + 1;
        }
        proof {
            assert(p@.subrange(0, n as int) =~= root@);
        }
        if n == m {
            Some(String::new())
        } else if p.get_char(n) == '/' {
            Some(p.substring_char(n + 1, m).to_owned())
        } else {
            None
        }
    }
}

} // verus!
