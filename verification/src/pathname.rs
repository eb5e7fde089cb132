//! File names of `/`-separated paths, read the way the platform path type
//! reads them: empty and `.` components are skipped, a final `..` names no
//! file, and an extension follows the last dot of a name that does not
//! start with that dot.

use vstd::prelude::*;
use crate::text::{chars_of, string_of, slice_vec, chars_eq};
use crate::schema::{last_index_of, find_last};

verus! {

pub proof fn lemma_last_index_bounds(s: Seq<char>, c: char)
    ensures
        match last_index_of(s, c) {
            Some(i) => 0 <= i < s.len() && s[i] == c && !s.subrange(i + 1, s.len() as int).contains(c),
            None => !s.contains(c),
        },
    decreases s.len(),
{
    if s.len() > 0 && s.last() != c {
        lemma_last_index_bounds(s.drop_last(), c);
        match last_index_of(s.drop_last(), c) {
            Some(i) => {
                assert(s.subrange(i + 1, s.len() as int) =~= s.drop_last().subrange(
                    i + 1,
                    s.len() - 1,
                ).push(s.last()));
            },
            None => {
                assert forall|k: int| 0 <= k < s.len() implies s[k] != c by {
                    if k < s.len() - 1 {
                        assert(s.drop_last()[k] == s[k]);
                    }
                }
            },
        }
    } else if s.len() > 0 {
        assert(s.subrange(s.len() as int, s.len() as int).len() == 0);
    }
}

/// The last component of `p` that is neither empty nor `.`.
pub open spec fn last_segment(p: Seq<char>) -> Option<Seq<char>>
    decreases p.len(),
{
    match last_index_of(p, '/') {
        None => if p.len() > 0 && p != "."@ {
            Some(p)
        } else {
            None
        },
        Some(k) => {
            let seg = p.subrange(k + 1, p.len() as int);
            if seg.len() > 0 && seg != "."@ {
                Some(seg)
            } else {
                proof {
                    lemma_last_index_bounds(p, '/');
                }
                last_segment(p.subrange(0, k))
            }
        },
    }
}

/// The final file name of a path: `None` for a root, an empty path or a final `..`.
pub open spec fn file_name(p: Seq<char>) -> Option<Seq<char>> {
    match last_segment(p) {
        Some(s) => if s == ".."@ {
            None
        } else {
            Some(s)
        },
        None => None,
    }
}

/// `(stem, extension)` of a file name.
pub open spec fn split_ext(f: Seq<char>) -> (Seq<char>, Option<Seq<char>>) {
    match last_index_of(f, '.') {
        Some(i) => if i > 0 && f != ".."@ {
            (f.subrange(0, i), Some(f.subrange(i + 1, f.len() as int)))
        } else {
            (f, None)
        },
        None => (f, None),
    }
}

pub open spec fn extension(p: Seq<char>) -> Option<Seq<char>> {
    match file_name(p) {
        Some(f) => split_ext(f).1,
        None => None,
    }
}

pub open spec fn file_stem(p: Seq<char>) -> Option<Seq<char>> {
    match file_name(p) {
        Some(f) => Some(split_ext(f).0),
        None => None,
    }
}

/// Some component of `p` is exactly `name`.
pub open spec fn has_component(p: Seq<char>, name: Seq<char>) -> bool {
    exists|i: int|
        0 <= i && i + name.len() <= p.len() && #[trigger] p.subrange(i, i + name.len()) == name && (i == 0
            || p[i - 1] == '/') && (i + name.len() == p.len() || p[i + name.len()] == '/')
}

pub open spec fn opt_string_view(o: Option<String>) -> Option<Seq<char>> {
    match o {
        Some(s) => Some(s@),
        None => None,
    }
}

fn is_dot(v: &Vec<char>) -> (r: bool)
    ensures
        r == (v@ == "."@),
{
    proof {
        reveal_strlit(".");
    }
    if v.len() == 1 && v[0] == '.' {
        proof {
            assert(v@ =~= "."@);
        }
        true
    } else {
        proof {
            if v@ == "."@ {
                assert(v@.len() == 1 && v@[0] == '.');
            }
        }
        false
    }
}

fn is_dotdot(v: &Vec<char>) -> (r: bool)
    ensures
        r == (v@ == ".."@),
{
    proof {
        reveal_strlit("..");
    }
    if v.len() == 2 && v[0] == '.' && v[1] == '.' {
        proof {
            assert(v@ =~= ".."@);
        }
        true
    } else {
        proof {
            if v@ == ".."@ {
                assert(v@.len() == 2 && v@[0] == '.' && v@[1] == '.');
            }
        }
        false
    }
}

/// The final file name of `path`.
pub fn path_file_name(path: &str) -> (r: Option<String>)
    ensures
        opt_string_view(r) == file_name(path@),
{
    let v = chars_of(path);
    let mut n: usize = v.len();
    proof {
        assert(v@.subrange(0, n as int) =~= v@);
    }
    let mut found: Option<Vec<char>> = None;
    loop
        invariant
            n <= v.len(),
            found is None ==> last_segment(v@.subrange(0, n as int)) == last_segment(path@),
            found matches Some(s) ==> last_segment(path@) == Some(s@),
        ensures
            found matches Some(s) && last_segment(path@) == Some(s@),
        decreases n + if found is None { 1int } else { 0int },
    {
        if found.is_some() {
            break;
        }
        let prefix = slice_vec(&v, 0, n);
        let ghost p = prefix@;
        proof {
            lemma_last_index_bounds(p, '/');
        }
        match find_last(&prefix, '/') {
            None => {
                if prefix.len() > 0 && !is_dot(&prefix) {
                    found = Some(prefix);
                } else {
                    return None;
                }
            },
            Some(k) => {
                let seg = slice_vec(&prefix, k + 1, prefix.len());
                if seg.len() > 0 && !is_dot(&seg) {
                    found = Some(seg);
                } else {
                    proof {
                        assert(p.subrange(0, k as int) =~= v@.subrange(0, k as int));
                    }
                    n = k;
                }
            },
        }
    }
    match found {
        Some(s) => {
            if is_dotdot(&s) {
                None
            } else {
                Some(string_of(&s))
            }
        },
        None => None,
    }
}

/// Stem and extension of a file name.
pub fn split_file_ext(name: &str) -> (r: (String, Option<String>))
    ensures
        r.0@ == split_ext(name@).0,
        opt_string_view(r.1) == split_ext(name@).1,
{
    let v = chars_of(name);
    match find_last(&v, '.') {
        Some(i) => {
            if i > 0 && !is_dotdot(&v) {
                (string_of(&slice_vec(&v, 0, i)), Some(string_of(&slice_vec(&v, i + 1, v.len()))))
            } else {
                (string_of(&v), None)
            }
        },
        None => (string_of(&v), None),
    }
}

/// The extension of the file a path names.
pub fn path_extension(path: &str) -> (r: Option<String>)
    ensures
        opt_string_view(r) == extension(path@),
{
    match path_file_name(path) {
        Some(f) => split_file_ext(f.as_str()).1,
        None => None,
    }
}

/// The stem of the file a path names.
pub fn path_file_stem(path: &str) -> (r: Option<String>)
    ensures
        opt_string_view(r) == file_stem(path@),
{
    match path_file_name(path) {
        Some(f) => Some(split_file_ext(f.as_str()).0),
        None => None,
    }
}

/// Whether some `/`-separated component of `path` equals `name` (non-empty).
pub fn path_has_component(path: &str, name: &str) -> (r: bool)
    requires
        name@.len() > 0,
    ensures
        r == has_component(path@, name@),
{
    let v = chars_of(path);
    let w = chars_of(name);
    if w.len() > v.len() {
        proof {
            assert forall|i: int|
                0 <= i && i + w@.len() <= v@.len() implies !(#[trigger] v@.subrange(i, i + w@.len()) == w@) by {}
        }
        return false;
    }
    let mut i: usize = 0;
    while i <= v.len() - w.len()
        invariant
            w@ == name@,
            v@ == path@,
            0 < w.len() <= v.len(),
            i <= v.len() - w.len() + 1,
            forall|j: int|
                0 <= j < i ==> !(#[trigger] v@.subrange(j, j + w@.len()) == w@ && (j == 0 || v@[j - 1] == '/')
                    && (j + w@.len() == v@.len() || v@[j + w@.len()] == '/')),
        decreases v.len() - i,
    {
        let sub = slice_vec(&v, i, i + w.len());
        let left_ok = i == 0 || v[i - 1] == '/';
        let right_ok = i + w.len() == v.len() || v[i + w.len()] == '/';
        if left_ok && right_ok && chars_eq(&sub, &w) {
            return true;
        }
        i = i + 1;
    }
    false
}

} // verus!
