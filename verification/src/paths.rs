//! A plain-string model of file-system paths.  A path is a sequence of
//! characters; `/` separates components and a leading `/` marks an
//! absolute path.  Every operation the orchestrator needs (joining,
//! taking the containing directory, the file name, stem and extension)
//! is defined here over that model.

use vstd::prelude::*;
use vstd::string::StrSliceExecFns;
use crate::text::chars_of;
use crate::text::string_of;

verus! {

/// Index of the last occurrence of `c` in `s`, or `-1` if `c` does not occur.
pub open spec fn last_pos(s: Seq<char>, c: char) -> int
    decreases s.len(),
{
    if s.len() == 0 {
        -1
    } else if s[s.len() - 1] == c {
        s.len() - 1
    } else {
        last_pos(s.drop_last(), c)
    }
}

pub proof fn lemma_last_pos_is(s: Seq<char>, c: char, k: int)
    requires
        0 <= k < s.len(),
        s[k] == c,
        forall|j: int| k < j < s.len() ==> s[j] != c,
    ensures
        last_pos(s, c) == k,
    decreases s.len(),
{
    if k == s.len() - 1 {
    } else {
        assert(s.drop_last()[k] == c);
        lemma_last_pos_is(s.drop_last(), c, k);
    }
}

pub proof fn lemma_last_pos_none(s: Seq<char>, c: char)
    requires
        forall|j: int| 0 <= j < s.len() ==> s[j] != c,
    ensures
        last_pos(s, c) == -1,
    decreases s.len(),
{
    if s.len() > 0 {
        lemma_last_pos_none(s.drop_last(), c);
    }
}

/// A path is absolute when it starts with `/`.
pub open spec fn is_absolute_spec(p: Seq<char>) -> bool {
    p.len() > 0 && p[0] == '/'
}

/// Joining `rel` onto `base`: an absolute `rel` stands alone; otherwise
/// the two are separated by exactly one `/`.
pub open spec fn join_spec(base: Seq<char>, rel: Seq<char>) -> Seq<char> {
    if is_absolute_spec(rel) {
        rel
    } else if base.len() == 0 {
        rel
    } else if base[base.len() - 1] == '/' {
        base + rel
    } else {
        base + seq!['/'] + rel
    }
}

/// The directory containing `p`: the part before the last `/`, or `.`
/// for a bare file name, or `/` when the last `/` is the leading one.
pub open spec fn parent_dir_spec(p: Seq<char>) -> Seq<char> {
    let i = last_pos(p, '/');
    if i < 0 {
        seq!['.']
    } else if i == 0 {
        seq!['/']
    } else {
        p.subrange(0, i)
    }
}

/// The part of `p` after the last `/` (all of `p` if it has none).
pub open spec fn file_name_spec(p: Seq<char>) -> Seq<char> {
    p.subrange(last_pos(p, '/') + 1, p.len() as int)
}

/// The file name up to its last `.`; a name whose only `.` leads it, or
/// that has none, is its own stem.
pub open spec fn file_stem_spec(p: Seq<char>) -> Seq<char> {
    let name = file_name_spec(p);
    let j = last_pos(name, '.');
    if j <= 0 {
        name
    } else {
        name.subrange(0, j)
    }
}

/// The file name past its last `.`, or empty when there is no extension.
pub open spec fn extension_spec(p: Seq<char>) -> Seq<char> {
    let name = file_name_spec(p);
    let j = last_pos(name, '.');
    if j <= 0 {
        Seq::<char>::empty()
    } else {
        name.subrange(j + 1, name.len() as int)
    }
}

fn last_pos_exec(v: &Vec<char>, c: char) -> (r: Option<usize>)
    ensures
        match r {
            Some(i) => i < v@.len() && last_pos(v@, c) == i,
            None => last_pos(v@, c) == -1,
        },
{
    let mut i: usize = v.len();
    while i > 0
        invariant
            i <= v@.len(),
            forall|j: int| i <= j < v@.len() ==> v@[j] != c,
        decreases i,
    {
        i = i - 1;
        if v[i] == c {
            proof {
                lemma_last_pos_is(v@, c, i as int);
            }
            return Some(i);
        }
    }
    proof {
        lemma_last_pos_none(v@, c);
    }
    None
}

pub fn is_absolute(p: &str) -> (r: bool)
    ensures
        r == is_absolute_spec(p@),
{
    p.unicode_len() > 0 && p.get_char(0) == '/'
}

/// Join `rel` onto `base` in the string path model.
pub fn path_join(base: &str, rel: &str) -> (r: String)
    ensures
        r@ == join_spec(base@, rel@),
{
    if is_absolute(rel) {
        return rel.to_owned();
    }
    let nb: usize = base.unicode_len();
    if nb == 0 {
        return rel.to_owned();
    }
    let mut v = chars_of(base);
    if base.get_char(nb - 1) != '/' {
        v.push('/');
    }
    let mut rv = chars_of(rel);
    v.append(&mut rv);
    proof {
        if base@[base@.len() - 1] == '/' {
            assert(v@ =~= base@ + rel@);
        } else {
            assert(v@ =~= base@ + seq!['/'] + rel@);
        }
    }
    string_of(&v)
}

/// The containing directory of `p`.
pub fn parent_dir(p: &str) -> (r: String)
    ensures
        r@ == parent_dir_spec(p@),
{
    let mut v = chars_of(p);
    match last_pos_exec(&v, '/') {
        None => {
            let r = ".".to_owned();
            proof {
                reveal_strlit(".");
                assert(r@ =~= seq!['.']);
            }
            r
        },
        Some(i) => {
            if i == 0 {
                let r = "/".to_owned();
                proof {
                    reveal_strlit("/");
                    assert(r@ =~= seq!['/']);
                }
                r
            } else {
                v.truncate(i);
                string_of(&v)
            }
        },
    }
}

fn file_name_chars(p: &str) -> (r: Vec<char>)
    ensures
        r@ == file_name_spec(p@),
{
    let v = chars_of(p);
    let n: usize = v.len();
    let start: usize = match last_pos_exec(&v, '/') {
        None => 0,
        Some(i) => i + 1,
    };
    let mut r: Vec<char> = Vec::new();
    let mut i: usize = start;
    while i < n
        invariant
            start <= i <= n,
            n == v@.len(),
            v@ == p@,
            r@ == v@.subrange(start as int, i as int),
        decreases n - i,
    {
        r.push(v[i]);
        i = i + 1;
        proof {
            assert(r@ =~= v@.subrange(start as int, i as int));
        }
    }
    r
}

/// The stem of `p`'s file name.
pub fn file_stem_of(p: &str) -> (r: String)
    ensures
        r@ == file_stem_spec(p@),
{
    let mut name = file_name_chars(p);
    match last_pos_exec(&name, '.') {
        None => string_of(&name),
        Some(j) => {
            if j == 0 {
                string_of(&name)
            } else {
                name.truncate(j);
                string_of(&name)
            }
        },
    }
}

/// The extension of `p`'s file name, empty when there is none.
pub fn extension_of(p: &str) -> (r: String)
    ensures
        r@ == extension_spec(p@),
{
    let name = file_name_chars(p);
    match last_pos_exec(&name, '.') {
        None => {
            let r = String::new();
            r
        },
        Some(j) => {
            if j == 0 {
                String::new()
            } else {
                let n: usize = name.len();
                let mut r: Vec<char> = Vec::new();
                let mut i: usize = j + 1;
                while i < n
                    invariant
                        j + 1 <= i <= n,
                        n == name@.len(),
                        r@ == name@.subrange(j + 1, i as int),
                    decreases n - i,
                {
                    r.push(name[i]);
                    i = i + 1;
                    proof {
                        assert(r@ =~= name@.subrange(j + 1, i as int));
                    }
                }
                string_of(&r)
            }
        },
    }
}

} // verus!
