//! What holds of paths and of `cd`'s plans.

use crate::builtins::{cd_plan, CdPlanView};
use crate::path::{
    ancestor, append_path, count_dotdot, name_end, parent, search_dirs, slashes_end, split,
};
use crate::text::{join, lemma_join_front, lemma_prefix_len, prefix_len};
use vstd::prelude::*;

verus! {

/// A name of one component: not empty and without a `/`.
pub open spec fn is_component(name: Seq<char>) -> bool {
    name.len() > 0 && forall|i: int| 0 <= i < name.len() ==> #[trigger] name[i] != '/'
}

/// A directory in the form in which the session keeps it while it only
/// climbs and descends by components: the root, or a path that does not
/// end in `/`.
pub open spec fn is_tidy(dir: Seq<char>) -> bool {
    dir == seq!['/'] || (dir.len() > 0 && dir.last() != '/')
}

/// Dropping names from the end of `p[..n]` stops at `m` if `p[m..n]` holds
/// no `/` and a `/`, or nothing, stands before it.
pub proof fn lemma_name_end_is(p: Seq<char>, m: int, n: int)
    requires
        0 <= m <= n <= p.len(),
        forall|i: int| m <= i < n ==> p[i] != '/',
        m == 0 || p[m - 1] == '/',
    ensures
        name_end(p, n) == m,
    decreases n - m,
{
    if m < n {
        lemma_name_end_is(p, m, n - 1);
    }
}

/// Dropping `/`s from the end of `p[..n]` stops at `m` if `p[m..n]` holds
/// nothing else and something else, or nothing, stands before it.
pub proof fn lemma_slashes_end_is(p: Seq<char>, m: int, n: int)
    requires
        0 <= m <= n <= p.len(),
        forall|i: int| m <= i < n ==> p[i] == '/',
        m == 0 || p[m - 1] != '/',
    ensures
        slashes_end(p, n) == m,
    decreases n - m,
{
    if m < n {
        lemma_slashes_end_is(p, m, n - 1);
    }
}

/// Going down by one component and up again leads back: the parent of
/// `name` seen from a tidy `dir` is `dir`.
pub proof fn lemma_parent_of_child(dir: Seq<char>, name: Seq<char>)
    requires
        is_tidy(dir),
        is_component(name),
    ensures
        parent(append_path(dir, name)) == dir,
        is_tidy(append_path(dir, name)),
{
    let p = append_path(dir, name);
    let n = p.len() as int;
    assert(name[0] != '/');
    assert(name[name.len() - 1] != '/');
    if dir.last() == '/' {
        assert(dir.len() == 1);
        assert(p =~= dir + name);
        lemma_slashes_end_is(p, n, n);
        lemma_name_end_is(p, 1, n);
        lemma_slashes_end_is(p, 0, 1);
        assert(dir =~= seq!['/']);
    } else {
        let k = dir.len() as int;
        assert(p =~= dir.push('/') + name);
        lemma_slashes_end_is(p, n, n);
        lemma_name_end_is(p, k + 1, n);
        assert(p[k - 1] == dir.last());
        lemma_slashes_end_is(p, k, k + 1);
        assert(p.take(k) =~= dir);
    }
}

/// The root is its own parent.
pub proof fn lemma_parent_of_root()
    ensures
        parent(seq!['/']) == seq!['/'],
{
    let p = seq!['/'];
    lemma_slashes_end_is(p, 0, 1);
    assert(name_end(p, 0) == 0);
    assert(slashes_end(p, 0) == 0);
}

/// Splitting loses nothing: a text has at least one piece, no piece holds
/// the separator, and the pieces joined by the separator are the text.
pub proof fn lemma_split_joins_back(s: Seq<char>, sep: char)
    ensures
        split(s, sep).len() >= 1,
        forall|i: int, j: int|
            0 <= i < split(s, sep).len() && 0 <= j < split(s, sep)[i].len() ==> split(
                s,
                sep,
            )[i][j] != sep,
        join(split(s, sep), sep) == s,
    decreases s.len(),
{
    let k = prefix_len(s, sep);
    lemma_prefix_len(s, sep);
    let pieces = split(s, sep);
    if k < s.len() {
        let head = s.take(k);
        let rest = split(s.skip(k + 1), sep);
        lemma_split_joins_back(s.skip(k + 1), sep);
        lemma_join_front(head, rest, sep);
        assert(head.push(sep) + s.skip(k + 1) =~= s);
        assert forall|i: int, j: int|
            0 <= i < pieces.len() && 0 <= j < pieces[i].len() implies pieces[i][j] != sep by {
            if i == 0 {
                assert(pieces[0][j] == s[j]);
            } else {
                assert(pieces[i] == rest[i - 1]);
            }
        }
    } else {
        assert(pieces =~= seq![s]);
    }
}

/// The directories of a search path, joined by `:`, are the search path.
pub proof fn lemma_search_dirs_join_back(value: Seq<char>)
    ensures
        join(search_dirs(value), ':') == value,
{
    if value.len() > 0 {
        lemma_split_joins_back(value, ':');
    } else {
        assert(value =~= Seq::<char>::empty());
    }
}

/// `n` times the name `..`.
pub open spec fn ups(n: nat) -> Seq<Seq<char>> {
    Seq::new(n, |i: int| seq!['.', '.'])
}

/// `n` times `..`, with a `/` between neighbours.
pub open spec fn climb(n: nat) -> Seq<char> {
    join(ups(n), '/')
}

/// `..`, `../..` and so on count as many `..` as they are made of.
pub proof fn lemma_count_climb(n: nat)
    ensures
        count_dotdot(climb(n)) == n,
        n > 0 ==> climb(n).len() >= 2 && climb(n)[0] == '.' && climb(n)[1] == '.',
    decreases n,
{
    let up = seq!['.', '.'];
    if n == 0 {
        assert(ups(0).len() == 0);
        assert(climb(0).len() == 0);
    } else {
        let rest = ups((n - 1) as nat);
        assert(ups(n) =~= seq![up] + rest);
        lemma_join_front(up, rest, '/');
        lemma_count_climb((n - 1) as nat);
        let s = climb(n);
        if n == 1 {
            assert(s == up);
            assert(s.skip(2) =~= Seq::<char>::empty());
            assert(count_dotdot(s.skip(2)) == 0);
        } else {
            let tail = climb((n - 1) as nat);
            assert(s == up.push('/') + tail);
            assert(s.skip(2) =~= seq!['/'] + tail);
            assert(s.skip(2).drop_first() =~= tail);
            assert(s[0] == '.' && s[1] == '.');
            assert(count_dotdot(s) == 1 + count_dotdot(s.skip(2)));
            assert(s.skip(2).len() >= 2);
            assert(s.skip(2)[0] == '/');
            assert(count_dotdot(s.skip(2)) == count_dotdot(tail));
        }
    }
}

/// `cd ..` leads to the parent of the working directory and `cd ../..` to
/// the parent of that: `cd` with `n` times `..` climbs `n` components,
/// without asking whether anything exists.
pub proof fn lemma_cd_climbs(cwd: Seq<char>, home: Seq<char>, n: nat)
    requires
        n > 0,
    ensures
        cd_plan(cwd, home, climb(n)) == CdPlanView::Go(ancestor(cwd, n)),
        ancestor(cwd, 1) == parent(cwd),
        ancestor(cwd, 2) == parent(parent(cwd)),
{
    lemma_count_climb(n);
    assert(ancestor(cwd, 1) == ancestor(parent(cwd), 0));
    assert(ancestor(cwd, 2) == ancestor(parent(cwd), 1));
    assert(ancestor(parent(cwd), 1) == ancestor(parent(parent(cwd)), 0));
}

} // verus!
