//! Path text: joining a directory and a component, and reading the stem and
//! extension of a file name, as std's `Path` does on Unix.
use vstd::prelude::*;
use crate::text::chars_of;

verus! {

/// std's `Path::join` on Unix, read back as text: an absolute component
/// replaces the base; otherwise a `/` is put between them unless the base is
/// empty or already ends with one.
pub open spec fn joined_path(base: Seq<char>, comp: Seq<char>) -> Seq<char> {
    if comp.len() > 0 && comp[0] == '/' {
        comp
    } else if base.len() > 0 && base.last() != '/' {
        base + seq!['/'] + comp
    } else {
        base + comp
    }
}

/// Joins `base` and `comp` as `joined_path` says.
pub fn join_path(base: &str, comp: &str) -> (r: String)
    ensures
        r@ == joined_path(base@, comp@),
{
    let b = chars_of(base);
    let c = chars_of(comp);
    if c.len() > 0 && c[0] == '/' {
        return comp.to_owned();
    }
    let mut r = base.to_owned();
    if b.len() > 0 && b[b.len() - 1] != '/' {
        r.push('/');
    }
    r.append(comp);
    r
}

/// The index of the last `.` in `s`, or -1 when there is none.
pub open spec fn last_dot(s: Seq<char>) -> int
    decreases s.len(),
{
    if s.len() == 0 {
        -1
    } else if s.last() == '.' {
        s.len() - 1
    } else {
        last_dot(s.drop_last())
    }
}

/// std's `Path::extension` of a file name: the text after the last `.`,
/// when that `.` is not the first character.
pub open spec fn extension_of(name: Seq<char>) -> Option<Seq<char>> {
    let k = last_dot(name);
    if k <= 0 {
        None
    } else {
        Some(name.skip(k + 1))
    }
}

/// std's `Path::file_stem` of a file name: the text before the last `.`, or
/// the whole name when there is no extension.
pub open spec fn stem_of(name: Seq<char>) -> Seq<char> {
    let k = last_dot(name);
    if k <= 0 {
        name
    } else {
        name.take(k)
    }
}

proof fn lemma_last_dot(s: Seq<char>, k: int)
    requires
        -1 <= k < s.len(),
        k >= 0 ==> s[k] == '.',
        forall|j: int| k < j < s.len() ==> #[trigger] s[j] != '.',
    ensures
        last_dot(s) == k,
    decreases s.len(),
{
    if s.len() > 0 && k < s.len() - 1 {
        lemma_last_dot(s.drop_last(), k);
    }
}

/// The position of the last `.` in `cs`, as `last_dot` says.
pub fn find_last_dot(cs: &Vec<char>) -> (k: Option<usize>)
    ensures
        match k {
            Some(k) => k < cs.len() && last_dot(cs@) == k as int,
            None => last_dot(cs@) == -1,
        },
{
    let mut i: usize = cs.len();
    while i > 0 && cs[i - 1] != '.'
        invariant
            i <= cs.len(),
            forall|j: int| i <= j < cs.len() ==> #[trigger] cs@[j] != '.',
        decreases i,
    {
        i = i - 1;
    }
    if i == 0 {
        proof {
            lemma_last_dot(cs@, -1);
        }
        None
    } else {
        proof {
            lemma_last_dot(cs@, i - 1);
        }
        Some(i - 1)
    }
}

} // verus!
