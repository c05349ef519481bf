//! Paths as texts: joining, popping components, and the directory list of a
//! search path. `/` separates components; a path that starts with `/` is
//! absolute.

use crate::text::{
    chars_of, lemma_prefix_len_is, lemma_texts_push, prefix_len, push_char, string_of, texts,
};
use vstd::prelude::*;
use vstd::string::*;

verus! {

/// Whether `p` starts at the root.
pub open spec fn is_absolute(p: Seq<char>) -> bool {
    p.len() > 0 && p[0] == '/'
}

/// `rel` seen from `dir`: `rel` itself where it is absolute; else `dir`,
/// a `/` unless `dir` is empty or already ends in one, and `rel`.
pub open spec fn append_path(dir: Seq<char>, rel: Seq<char>) -> Seq<char> {
    if is_absolute(rel) {
        rel
    } else if dir.len() == 0 || dir.last() == '/' {
        dir + rel
    } else {
        dir.push('/') + rel
    }
}

/// The length of `p[..n]` without the `/`s at its end.
pub open spec fn slashes_end(p: Seq<char>, n: int) -> int
    decreases n,
{
    if 0 < n <= p.len() && p[n - 1] == '/' {
        slashes_end(p, n - 1)
    } else {
        n
    }
}

/// The length of `p[..n]` without the characters other than `/` at its end.
pub open spec fn name_end(p: Seq<char>, n: int) -> int
    decreases n,
{
    if 0 < n <= p.len() && p[n - 1] != '/' {
        name_end(p, n - 1)
    } else {
        n
    }
}

/// The length of what is left of `p` without its last component and the
/// `/`s around it.
pub open spec fn parent_len(p: Seq<char>) -> int {
    slashes_end(p, name_end(p, slashes_end(p, p.len() as int)))
}

/// `p` without its last component. The root has no component to lose and
/// stays; a lone relative name leaves the empty path.
pub open spec fn parent(p: Seq<char>) -> Seq<char> {
    if parent_len(p) == 0 && is_absolute(p) {
        seq!['/']
    } else {
        p.take(parent_len(p))
    }
}

/// `p` without its last `n` components.
pub open spec fn ancestor(p: Seq<char>, n: nat) -> Seq<char>
    decreases n,
{
    if n == 0 {
        p
    } else {
        ancestor(parent(p), (n - 1) as nat)
    }
}

/// How often `..` occurs in `s`, counted from the left without overlap.
pub open spec fn count_dotdot(s: Seq<char>) -> nat
    decreases s.len(),
{
    if s.len() < 2 {
        0
    } else if s[0] == '.' && s[1] == '.' {
        1 + count_dotdot(s.skip(2))
    } else {
        count_dotdot(s.drop_first())
    }
}

/// The pieces of `s` between its `sep`s, in order; one piece more than
/// there are `sep`s.
pub open spec fn split(s: Seq<char>, sep: char) -> Seq<Seq<char>>
    decreases s.len(),
{
    let k = prefix_len(s, sep);
    if 0 <= k < s.len() {
        seq![s.take(k)] + split(s.skip(k + 1), sep)
    } else {
        seq![s]
    }
}

/// The directories of a search path: its pieces between `:`s, and none at
/// all for the empty search path.
pub open spec fn search_dirs(value: Seq<char>) -> Seq<Seq<char>> {
    if value.len() == 0 {
        Seq::empty()
    } else {
        split(value, ':')
    }
}

/// The first candidate for `name` along `dirs`, from the directory `from`
/// on, that `is_file` holds to be a regular file.
pub open spec fn first_file(
    name: Seq<char>,
    dirs: Seq<Seq<char>>,
    is_file: spec_fn(Seq<char>) -> bool,
    from: nat,
) -> Option<Seq<char>>
    decreases dirs.len() - from,
{
    if from >= dirs.len() {
        None
    } else if is_file(append_path(dirs[from as int], name)) {
        Some(append_path(dirs[from as int], name))
    } else {
        first_file(name, dirs, is_file, from + 1)
    }
}

/// Where `name` is found along `dirs`: the candidate in the first
/// directory, in the order of the list, whose candidate `is_file` holds to
/// be a regular file.
pub open spec fn resolve(
    name: Seq<char>,
    dirs: Seq<Seq<char>>,
    is_file: spec_fn(Seq<char>) -> bool,
) -> Option<Seq<char>> {
    first_file(name, dirs, is_file, 0)
}

/// Joins `rel` to `dir`.
pub fn join_path(dir: &str, rel: &str) -> (r: String)
    ensures
        r@ == append_path(dir@, rel@),
{
    let d = chars_of(dir);
    let l = chars_of(rel);
    if l.len() > 0 && l[0] == '/' {
        return String::from_str(rel);
    }
    let mut r = String::from_str(dir);
    if d.len() > 0 && d[d.len() - 1] != '/' {
        push_char(&mut r, '/');
    }
    r.append(rel);
    r
}

/// Drops the last component of `dir`.
pub fn parent_dir(dir: &str) -> (r: String)
    ensures
        r@ == parent(dir@),
{
    let p = chars_of(dir);
    let mut n: usize = p.len();
    while n > 0 && p[n - 1] == '/'
        invariant
            n <= p.len(),
            slashes_end(p@, n as int) == slashes_end(p@, p@.len() as int),
        decreases n,
    {
        n -= 1;
    }
    let ghost a = n;
    while n > 0 && p[n - 1] != '/'
        invariant
            n <= a <= p.len(),
            name_end(p@, n as int) == name_end(p@, a as int),
        decreases n,
    {
        n -= 1;
    }
    let ghost b = n;
    while n > 0 && p[n - 1] == '/'
        invariant
            n <= b <= p.len(),
            slashes_end(p@, n as int) == slashes_end(p@, b as int),
        decreases n,
    {
        n -= 1;
    }
    if n == 0 && p.len() > 0 && p[0] == '/' {
        let mut r = String::new();
        push_char(&mut r, '/');
        assert(r@ =~= seq!['/']);
        r
    } else {
        string_of(&p, 0, n)
    }
}

/// Drops the last `n` components of `dir`.
pub fn ancestor_dir(dir: &str, n: usize) -> (r: String)
    ensures
        r@ == ancestor(dir@, n as nat),
{
    let mut r = String::from_str(dir);
    let mut i: usize = 0;
    while i < n
        invariant
            i <= n,
            ancestor(r@, (n - i) as nat) == ancestor(dir@, n as nat),
        decreases n - i,
    {
        r = parent_dir(r.as_str());
        i += 1;
    }
    r
}

/// Counts the `..` in `s`.
pub fn dotdot_count(s: &str) -> (n: usize)
    ensures
        n == count_dotdot(s@),
{
    let v = chars_of(s);
    let mut i: usize = 0;
    let mut n: usize = 0;
    assert(v@.skip(0) =~= s@);
    while v.len() - i >= 2
        invariant
            i <= v.len(),
            n <= i,
            v@ == s@,
            n + count_dotdot(v@.skip(i as int)) == count_dotdot(s@),
        decreases v.len() - i,
    {
        let ghost rest = v@.skip(i as int);
        if v[i] == '.' && v[i + 1] == '.' {
            assert(rest.skip(2) =~= v@.skip(i + 2));
            i += 2;
            n += 1;
        } else {
            assert(rest.drop_first() =~= v@.skip(i + 1));
            i += 1;
        }
    }
    n
}

/// The directories named by the search path `value`.
pub fn split_path_list(value: &str) -> (dirs: Vec<String>)
    ensures
        texts(dirs@) == search_dirs(value@),
{
    let v = chars_of(value);
    let mut dirs: Vec<String> = Vec::new();
    if v.len() == 0 {
        assert(texts(dirs@) =~= Seq::<Seq<char>>::empty());
        return dirs;
    }
    let mut begin: usize = 0;
    let mut i: usize = 0;
    assert(v@.skip(0) =~= v@);
    assert(texts(dirs@) + split(v@, ':') =~= split(v@, ':'));
    while i < v.len()
        invariant
            begin <= i <= v.len(),
            v@ == value@,
            forall|j: int| begin <= j < i ==> v@[j] != ':',
            texts(dirs@) + split(v@.skip(begin as int), ':') == split(value@, ':'),
        decreases v.len() - i,
    {
        if v[i] == ':' {
            let piece = string_of(&v, begin, i);
            proof {
                let rest = v@.skip(begin as int);
                lemma_prefix_len_is(rest, ':', i - begin);
                assert(rest.take(i - begin) =~= piece@);
                assert(rest.skip(i - begin + 1) =~= v@.skip(i + 1));
                lemma_texts_push(dirs@, piece);
                assert(texts(dirs@).push(piece@) + split(v@.skip(i + 1), ':') =~= texts(dirs@) + (
                seq![piece@] + split(v@.skip(i + 1), ':')));
            }
            dirs.push(piece);
            begin = i + 1;
        }
        i += 1;
    }
    let piece = string_of(&v, begin, v.len());
    proof {
        let rest = v@.skip(begin as int);
        lemma_prefix_len_is(rest, ':', v@.len() - begin);
        assert(rest =~= piece@);
        lemma_texts_push(dirs@, piece);
        assert(texts(dirs@).push(piece@) =~= texts(dirs@) + seq![piece@]);
    }
    dirs.push(piece);
    dirs
}

} // verus!
