//! Paths as text: joining a directory and a name, the directory that holds a
//! file, and a path taken relative to a directory.

use vstd::prelude::*;
use crate::text::{is_prefix, is_suffix, starts_with, tail_from};

verus! {

/// `directory`, a slash and `name`.
pub open spec fn joined(directory: Seq<char>, name: Seq<char>) -> Seq<char> {
    directory + "/"@ + name
}

/// The path of `name` in `directory`.
pub fn join_path(directory: &str, name: &str) -> (r: String)
    ensures
        r@ == joined(directory@, name@),
{
    let mut r = String::from_str(directory);
    r.append("/");
    r.append(name);
    r
}

/// The position of the last slash of `s`, or -1 where it has none.
pub open spec fn last_slash(s: Seq<char>) -> int
    decreases s.len(),
{
    if s.len() == 0 {
        -1
    } else if s.last() == '/' {
        s.len() - 1
    } else {
        last_slash(s.drop_last())
    }
}

/// The directory that holds the file `path`: what stands before its last
/// slash; the root where that is the only slash; nothing where it has none.
pub open spec fn parent_text(path: Seq<char>) -> Seq<char> {
    let k = last_slash(path);
    if k < 0 {
        Seq::empty()
    } else if k == 0 {
        path.subrange(0, 1)
    } else {
        path.subrange(0, k)
    }
}

/// `s` without the slashes at its start.
pub open spec fn without_leading_slashes(s: Seq<char>) -> Seq<char>
    decreases s.len(),
{
    if s.len() > 0 && s[0] == '/' {
        without_leading_slashes(s.drop_first())
    } else {
        s
    }
}

/// `path` relative to the directory `prefix`: what follows the prefix, without
/// the slashes between the two. `None` where `path` does not lie under
/// `prefix`. An empty prefix leaves the path as it is.
pub open spec fn relative_to(path: Seq<char>, prefix: Seq<char>) -> Option<Seq<char>> {
    if !is_prefix(path, prefix) {
        None
    } else {
        let rest = path.subrange(prefix.len() as int, path.len() as int);
        if prefix.len() == 0 {
            Some(rest)
        } else if prefix.last() == '/' || rest.len() == 0 || rest[0] == '/' {
            Some(without_leading_slashes(rest))
        } else {
            None
        }
    }
}

/// What is left of a text without its leading slashes is an end of that text
/// and starts with no slash.
pub proof fn lemma_without_leading_slashes(s: Seq<char>)
    ensures
        without_leading_slashes(s).len() == 0 || without_leading_slashes(s)[0] != '/',
        without_leading_slashes(s).len() <= s.len(),
        without_leading_slashes(s) == s.subrange(
            s.len() - without_leading_slashes(s).len(),
            s.len() as int,
        ),
    decreases s.len(),
{
    if s.len() > 0 && s[0] == '/' {
        let t = s.drop_first();
        lemma_without_leading_slashes(t);
        let w = without_leading_slashes(t);
        assert(t.subrange(t.len() - w.len(), t.len() as int) =~= s.subrange(
            s.len() - w.len(),
            s.len() as int,
        ));
    } else {
        assert(s.subrange(0, s.len() as int) =~= s);
    }
}

/// A path taken relative to a directory is an end of that path, and, where
/// the directory has a name, starts with no slash.
pub proof fn lemma_relative_path_shape(path: Seq<char>, prefix: Seq<char>)
    requires
        relative_to(path, prefix).is_some(),
    ensures
        is_suffix(path, relative_to(path, prefix).unwrap()),
        prefix.len() > 0 ==> relative_to(path, prefix).unwrap().len() == 0 || relative_to(
            path,
            prefix,
        ).unwrap()[0] != '/',
{
    let rest = path.subrange(prefix.len() as int, path.len() as int);
    let r = relative_to(path, prefix).unwrap();
    if prefix.len() > 0 {
        lemma_without_leading_slashes(rest);
        assert(rest.subrange(rest.len() - r.len(), rest.len() as int) =~= path.subrange(
            path.len() - r.len(),
            path.len() as int,
        ));
    }
}

/// The directory that holds the file `path`.
pub fn parent_directory(path: &str) -> (r: String)
    ensures
        r@ == parent_text(path@),
{
    let n: usize = path.unicode_len();
    let mut i: usize = n;
    proof {
        assert(path@.take(n as int) =~= path@);
    }
    while i > 0
        invariant
            n == path@.len(),
            i <= n,
            last_slash(path@) == last_slash(path@.take(i as int)),
        decreases i,
    {
        if path.get_char(i - 1) == '/' {
            proof {
                assert(path@.take(i as int).last() == '/');
            }
            if i == 1 {
                return String::from_str(path.substring_char(0, 1));
            }
            return String::from_str(path.substring_char(0, i - 1));
        }
        proof {
            assert(path@.take(i as int).drop_last() =~= path@.take(i - 1));
        }
        i -= 1;
    }
    proof {
        assert(path@.take(0).len() == 0);
    }
    String::new()
}

/// `path` relative to the directory `prefix`, where it lies under it.
pub fn relative_path(path: &str, prefix: &str) -> (r: Option<String>)
    ensures
        r.is_some() == relative_to(path@, prefix@).is_some(),
        r.is_some() ==> r.unwrap()@ == relative_to(path@, prefix@).unwrap(),
{
    if !starts_with(path, prefix) {
        return None;
    }
    let n: usize = path.unicode_len();
    let m: usize = prefix.unicode_len();
    if m == 0 {
        return Some(tail_from(path, 0));
    }
    let ghost rest = path@.subrange(m as int, n as int);
    if prefix.get_char(m - 1) != '/' && m < n && path.get_char(m) != '/' {
        assert(rest[0] == path@[m as int]);
        return None;
    }
    let mut i: usize = m;
    while i < n && path.get_char(i) == '/'
        invariant
            n == path@.len(),
            m <= i <= n,
            rest == path@.subrange(m as int, n as int),
            without_leading_slashes(rest) == without_leading_slashes(
                path@.subrange(i as int, n as int),
            ),
        decreases n - i,
    {
        proof {
            let cur = path@.subrange(i as int, n as int);
            assert(cur[0] == path@[i as int]);
            assert(cur.drop_first() =~= path@.subrange(i + 1, n as int));
        }
        i += 1;
    }
    proof {
        let cur = path@.subrange(i as int, n as int);
        if i < n {
            assert(cur[0] == path@[i as int]);
        }
        assert(m < n ==> rest[0] == path@[m as int]);
    }
    Some(tail_from(path, i))
}

} // verus!
