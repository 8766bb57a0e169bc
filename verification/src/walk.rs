//! The recursive directory walk, verified over an in-memory tree. A
//! caller reads the real file system, mirrors each directory level into
//! `FsTree` values, and the walk itself — the filtering, the pruning and
//! the collection of file paths — is verified here. The substring filter
//! is applied to each entry's full path; an entry that fails it is
//! pruned: a rejected directory is never descended into.

use vstd::prelude::*;
use vstd::string::StrSliceExecFns;
use vstd::string::StringExecFns;

use crate::filter::passes_path_filter;
use crate::filter::path_passes_filter;
use crate::filter::subs_view;
use crate::text::contains_sub;
use crate::text::lemma_contains_sub_of_prefix;
use crate::text::lemma_prefix_transitive;
use crate::text::prefix_of;

verus! {

/// One entry of a directory tree: a regular file or a directory with its
/// own entries, each carrying its bare name.
pub enum FsTree {
    File { name: String },
    Dir { name: String, entries: Vec<FsTree> },
}

/// The bare name of a tree entry.
pub open spec fn entry_name(e: FsTree) -> Seq<char> {
    match e {
        FsTree::File { name } => name@,
        FsTree::Dir { name, entries } => name@,
    }
}

/// A base path joined with an entry name by `/`.
pub open spec fn joined(base: Seq<char>, name: Seq<char>) -> Seq<char> {
    base + seq!['/'] + name
}

/// The file paths that the walk returns under one entry of `base`:
/// nothing where the entry's path fails the filter (a rejected directory
/// is pruned whole), the path itself for a file, and the collected paths
/// of the entries for a directory.
pub open spec fn walk_entry_spec(
    base: Seq<char>,
    e: FsTree,
    inc: Option<Seq<Seq<char>>>,
    exc: Option<Seq<Seq<char>>>,
) -> Seq<Seq<char>>
    decreases e, 0nat, 0nat,
{
    let path = joined(base, entry_name(e));
    if !passes_path_filter(path, inc, exc) {
        Seq::empty()
    } else {
        match e {
            FsTree::File { name } => seq![path],
            FsTree::Dir { name, entries } => walk_list_spec(
                path,
                entries@,
                entries@.len() as int,
                inc,
                exc,
            ),
        }
    }
}

/// The file paths collected under the first `n` entries of a directory at
/// `base`, in order.
pub open spec fn walk_list_spec(
    base: Seq<char>,
    es: Seq<FsTree>,
    n: int,
    inc: Option<Seq<Seq<char>>>,
    exc: Option<Seq<Seq<char>>>,
) -> Seq<Seq<char>>
    decreases es, 1nat, n,
{
    if n <= 0 || n > es.len() {
        Seq::empty()
    } else {
        walk_list_spec(base, es, n - 1, inc, exc) + walk_entry_spec(base, es[n - 1], inc, exc)
    }
}

/// Every regular-file path under one entry of `base`, with no filtering.
pub open spec fn all_files_entry(base: Seq<char>, e: FsTree) -> Seq<Seq<char>>
    decreases e, 0nat, 0nat,
{
    let path = joined(base, entry_name(e));
    match e {
        FsTree::File { name } => seq![path],
        FsTree::Dir { name, entries } => all_files_list(path, entries@, entries@.len() as int),
    }
}

/// Every regular-file path under the first `n` entries of a directory at
/// `base`, with no filtering.
pub open spec fn all_files_list(base: Seq<char>, es: Seq<FsTree>, n: int) -> Seq<Seq<char>>
    decreases es, 1nat, n,
{
    if n <= 0 || n > es.len() {
        Seq::empty()
    } else {
        all_files_list(base, es, n - 1) + all_files_entry(base, es[n - 1])
    }
}

/// The substring path filter as a predicate on path views.
pub open spec fn path_pred(inc: Option<Seq<Seq<char>>>, exc: Option<Seq<Seq<char>>>) -> spec_fn(
    Seq<char>,
) -> bool {
    |p: Seq<char>| passes_path_filter(p, inc, exc)
}

proof fn lemma_filter_none_pass(s: Seq<Seq<char>>, pred: spec_fn(Seq<char>) -> bool)
    requires
        forall|k: int| 0 <= k < s.len() ==> !pred(s[k]),
    ensures
        s.filter(pred) == Seq::<Seq<char>>::empty(),
    decreases s.len(),
{
    reveal(Seq::filter);
    if s.len() > 0 {
        lemma_filter_none_pass(s.drop_last(), pred);
    }
}

/// An entry's path extends the base it stands under.
proof fn lemma_all_files_entry_prefix(base: Seq<char>, e: FsTree)
    ensures
        forall|q: Seq<char>| #[trigger]
            all_files_entry(base, e).contains(q) ==> prefix_of(joined(base, entry_name(e)), q),
    decreases e, 0nat, 0nat,
{
    let path = joined(base, entry_name(e));
    match e {
        FsTree::File { name } => {
            assert(path.subrange(0, path.len() as int) =~= path);
            assert forall|q: Seq<char>| #[trigger]
                all_files_entry(base, e).contains(q) implies prefix_of(path, q) by {
                assert(q == seq![path][0]);
            }
        },
        FsTree::Dir { name, entries } => {
            lemma_all_files_list_prefix(path, entries@, entries@.len() as int);
            assert(all_files_entry(base, e) == all_files_list(
                path,
                entries@,
                entries@.len() as int,
            ));
            assert forall|q: Seq<char>| #[trigger]
                all_files_entry(base, e).contains(q) implies prefix_of(path, q) by {
                assert(all_files_list(path, entries@, entries@.len() as int).contains(q));
            }
        },
    }
}

/// Every file path under the first `n` entries of a directory at `base`
/// extends `base`.
proof fn lemma_all_files_list_prefix(base: Seq<char>, es: Seq<FsTree>, n: int)
    ensures
        forall|q: Seq<char>| #[trigger]
            all_files_list(base, es, n).contains(q) ==> prefix_of(base, q),
    decreases es, 1nat, n,
{
    if 0 < n <= es.len() {
        lemma_all_files_list_prefix(base, es, n - 1);
        lemma_all_files_entry_prefix(base, es[n - 1]);
        let child = joined(base, entry_name(es[n - 1]));
        assert(child.subrange(0, base.len() as int) =~= base);
        assert forall|q: Seq<char>| #[trigger]
            all_files_list(base, es, n).contains(q) implies prefix_of(base, q) by {
            let whole = all_files_list(base, es, n);
            let left = all_files_list(base, es, n - 1);
            let right = all_files_entry(base, es[n - 1]);
            let k = choose|k: int| 0 <= k < whole.len() && whole[k] == q;
            if k < left.len() {
                assert(left.contains(q));
            } else {
                assert(right.contains(q));
                assert(prefix_of(child, q));
                assert(q.subrange(0, base.len() as int) =~= q.subrange(
                    0,
                    child.len() as int,
                ).subrange(0, base.len() as int));
            }
        }
    }
}

/// `q` names a file under entry `e` of `base` such that the file's own
/// path and the path of every directory on the way down pass the filter.
pub open spec fn tree_keeps(
    base: Seq<char>,
    e: FsTree,
    q: Seq<char>,
    inc: Option<Seq<Seq<char>>>,
    exc: Option<Seq<Seq<char>>>,
) -> bool
    decreases e, 0nat, 0nat,
{
    let path = joined(base, entry_name(e));
    passes_path_filter(path, inc, exc) && match e {
        FsTree::File { name } => q == path,
        FsTree::Dir { name, entries } => exists|k: int|
            0 <= k < entries@.len() && tree_keeps(path, #[trigger] entries@[k], q, inc, exc),
    }
}

/// For every filter, the walk under one entry returns exactly the paths
/// of the files it keeps: the file's own path passes and so does every
/// directory on the way down — a rejected directory is pruned whole, so
/// nothing under it is returned, and nothing else is lost.
pub proof fn lemma_walk_entry_exact(
    base: Seq<char>,
    e: FsTree,
    inc: Option<Seq<Seq<char>>>,
    exc: Option<Seq<Seq<char>>>,
)
    ensures
        forall|q: Seq<char>| #[trigger]
            walk_entry_spec(base, e, inc, exc).contains(q) <==> tree_keeps(base, e, q, inc, exc),
    decreases e, 0nat, 0nat,
{
    let path = joined(base, entry_name(e));
    if passes_path_filter(path, inc, exc) {
        match e {
            FsTree::File { name } => {
                assert forall|q: Seq<char>| #[trigger]
                    walk_entry_spec(base, e, inc, exc).contains(q) <==> tree_keeps(
                    base,
                    e,
                    q,
                    inc,
                    exc,
                ) by {
                    if walk_entry_spec(base, e, inc, exc).contains(q) {
                        assert(q == seq![path][0]);
                    }
                    if tree_keeps(base, e, q, inc, exc) {
                        assert(seq![path][0] == q);
                    }
                }
            },
            FsTree::Dir { name, entries } => {
                lemma_walk_list_exact(path, entries@, entries@.len() as int, inc, exc);
                assert forall|q: Seq<char>| #[trigger]
                    walk_entry_spec(base, e, inc, exc).contains(q) <==> tree_keeps(
                    base,
                    e,
                    q,
                    inc,
                    exc,
                ) by {
                    assert(walk_entry_spec(base, e, inc, exc) == walk_list_spec(
                        path,
                        entries@,
                        entries@.len() as int,
                        inc,
                        exc,
                    ));
                }
            },
        }
    } else {
        assert forall|q: Seq<char>| #[trigger]
            walk_entry_spec(base, e, inc, exc).contains(q) <==> tree_keeps(
            base,
            e,
            q,
            inc,
            exc,
        ) by {
            assert(walk_entry_spec(base, e, inc, exc).len() == 0);
            assert(!tree_keeps(base, e, q, inc, exc));
        }
    }
}

/// The list form of the exactness law, over the first `n` entries of a
/// directory at `base`.
pub proof fn lemma_walk_list_exact(
    base: Seq<char>,
    es: Seq<FsTree>,
    n: int,
    inc: Option<Seq<Seq<char>>>,
    exc: Option<Seq<Seq<char>>>,
)
    requires
        n <= es.len(),
    ensures
        forall|q: Seq<char>| #[trigger]
            walk_list_spec(base, es, n, inc, exc).contains(q) <==> exists|k: int|
                0 <= k < n && tree_keeps(base, #[trigger] es[k], q, inc, exc),
    decreases es, 1nat, n,
{
    if 0 < n <= es.len() {
        lemma_walk_list_exact(base, es, n - 1, inc, exc);
        lemma_walk_entry_exact(base, es[n - 1], inc, exc);
        let whole = walk_list_spec(base, es, n, inc, exc);
        let left = walk_list_spec(base, es, n - 1, inc, exc);
        let right = walk_entry_spec(base, es[n - 1], inc, exc);
        assert forall|q: Seq<char>| #[trigger] whole.contains(q) <==> exists|k: int|
            0 <= k < n && tree_keeps(base, #[trigger] es[k], q, inc, exc) by {
            if whole.contains(q) {
                let j = choose|j: int| 0 <= j < whole.len() && whole[j] == q;
                if j < left.len() {
                    assert(left[j] == q);
                    assert(left.contains(q));
                } else {
                    assert(right[j - left.len()] == q);
                    assert(right.contains(q));
                    assert(tree_keeps(base, es[n - 1], q, inc, exc));
                }
            }
            if exists|k: int| 0 <= k < n && tree_keeps(base, #[trigger] es[k], q, inc, exc) {
                let k = choose|k: int|
                    0 <= k < n && tree_keeps(base, #[trigger] es[k], q, inc, exc);
                if k < n - 1 {
                    assert(left.contains(q));
                    let j = choose|j: int| 0 <= j < left.len() && left[j] == q;
                    assert(whole[j] == q);
                } else {
                    assert(right.contains(q));
                    let j = choose|j: int| 0 <= j < right.len() && right[j] == q;
                    assert(whole[left.len() + j] == q);
                }
            }
        }
    }
}

/// Every path the walk returns under one entry extends the base followed
/// by `/`.
pub proof fn lemma_walk_entry_under(
    base: Seq<char>,
    e: FsTree,
    inc: Option<Seq<Seq<char>>>,
    exc: Option<Seq<Seq<char>>>,
)
    ensures
        forall|q: Seq<char>| #[trigger]
            walk_entry_spec(base, e, inc, exc).contains(q) ==> prefix_of(base + seq!['/'], q),
    decreases e, 0nat, 0nat,
{
    let path = joined(base, entry_name(e));
    let slashed = base + seq!['/'];
    assert(path.subrange(0, slashed.len() as int) =~= slashed);
    if passes_path_filter(path, inc, exc) {
        match e {
            FsTree::File { name } => {
                assert(path.subrange(0, path.len() as int) =~= path);
                assert forall|q: Seq<char>| #[trigger]
                    walk_entry_spec(base, e, inc, exc).contains(q) implies prefix_of(
                    slashed,
                    q,
                ) by {
                    assert(q == seq![path][0]);
                    lemma_prefix_transitive(slashed, path, q);
                }
            },
            FsTree::Dir { name, entries } => {
                lemma_walk_list_under(path, entries@, entries@.len() as int, inc, exc);
                assert forall|q: Seq<char>| #[trigger]
                    walk_entry_spec(base, e, inc, exc).contains(q) implies prefix_of(
                    slashed,
                    q,
                ) by {
                    assert(walk_list_spec(path, entries@, entries@.len() as int, inc, exc).contains(
                        q,
                    ));
                    assert((path + seq!['/']).subrange(0, slashed.len() as int) =~= slashed);
                    lemma_prefix_transitive(slashed, path + seq!['/'], q);
                }
            },
        }
    }
}

/// Every path the walk returns under the first `n` entries of a directory
/// at `base` extends `base` followed by `/`.
pub proof fn lemma_walk_list_under(
    base: Seq<char>,
    es: Seq<FsTree>,
    n: int,
    inc: Option<Seq<Seq<char>>>,
    exc: Option<Seq<Seq<char>>>,
)
    ensures
        forall|q: Seq<char>| #[trigger]
            walk_list_spec(base, es, n, inc, exc).contains(q) ==> prefix_of(base + seq!['/'], q),
    decreases es, 1nat, n,
{
    if 0 < n <= es.len() {
        lemma_walk_list_under(base, es, n - 1, inc, exc);
        lemma_walk_entry_under(base, es[n - 1], inc, exc);
        assert forall|q: Seq<char>| #[trigger]
            walk_list_spec(base, es, n, inc, exc).contains(q) implies prefix_of(
            base + seq!['/'],
            q,
        ) by {
            let whole = walk_list_spec(base, es, n, inc, exc);
            let left = walk_list_spec(base, es, n - 1, inc, exc);
            let right = walk_entry_spec(base, es[n - 1], inc, exc);
            let k = choose|k: int| 0 <= k < whole.len() && whole[k] == q;
            if k < left.len() {
                assert(left.contains(q));
            } else {
                assert(right.contains(q));
            }
        }
    }
}

/// With no name given to match (the substring filter only excludes), the
/// walk returns exactly the files of the tree whose full path passes the
/// filter, in order: pruning a rejected directory loses no file that the
/// filter would keep, since a file's path contains its directory's path
/// as a prefix.
pub proof fn lemma_walk_entry_exclude_exact(
    base: Seq<char>,
    e: FsTree,
    inc: Option<Seq<Seq<char>>>,
    exc: Option<Seq<Seq<char>>>,
)
    requires
        inc is None || inc->0.len() == 0,
    ensures
        walk_entry_spec(base, e, inc, exc) == all_files_entry(base, e).filter(path_pred(inc, exc)),
    decreases e, 0nat, 0nat,
{
    reveal(Seq::filter);
    let path = joined(base, entry_name(e));
    let pred = path_pred(inc, exc);
    if passes_path_filter(path, inc, exc) {
        match e {
            FsTree::File { name } => {
                assert(seq![path].drop_last() =~= Seq::<Seq<char>>::empty());
                assert(seq![path].filter(pred) =~= seq![path]);
            },
            FsTree::Dir { name, entries } => {
                lemma_walk_list_exclude_exact(path, entries@, entries@.len() as int, inc, exc);
            },
        }
    } else {
        let all = all_files_entry(base, e);
        let l = exc->0;
        let kk = choose|kk: int| 0 <= kk < l.len() && contains_sub(path, l[kk]);
        lemma_all_files_entry_prefix(base, e);
        assert forall|k: int| 0 <= k < all.len() implies !pred(all[k]) by {
            assert(all.contains(all[k]));
            lemma_contains_sub_of_prefix(path, all[k], l[kk]);
        }
        lemma_filter_none_pass(all, pred);
    }
}

/// The list form of the walk exactness law, over the first `n` entries.
pub proof fn lemma_walk_list_exclude_exact(
    base: Seq<char>,
    es: Seq<FsTree>,
    n: int,
    inc: Option<Seq<Seq<char>>>,
    exc: Option<Seq<Seq<char>>>,
)
    requires
        inc is None || inc->0.len() == 0,
    ensures
        walk_list_spec(base, es, n, inc, exc) == all_files_list(base, es, n).filter(
            path_pred(inc, exc),
        ),
    decreases es, 1nat, n,
{
    reveal(Seq::filter);
    let pred = path_pred(inc, exc);
    if n <= 0 || n > es.len() {
        assert(Seq::<Seq<char>>::empty().filter(pred) =~= Seq::<Seq<char>>::empty());
    } else {
        lemma_walk_list_exclude_exact(base, es, n - 1, inc, exc);
        lemma_walk_entry_exclude_exact(base, es[n - 1], inc, exc);
        Seq::filter_distributes_over_add(
            all_files_list(base, es, n - 1),
            all_files_entry(base, es[n - 1]),
            pred,
        );
    }
}

/// Returns the bare name of a tree entry.
pub fn entry_name_str(e: &FsTree) -> (r: &str)
    ensures
        r@ == entry_name(*e),
{
    match e {
        FsTree::File { name } => name.as_str(),
        FsTree::Dir { name, entries } => name.as_str(),
    }
}

/// Returns `base` and `name` joined by `/`.
pub fn join_path(base: &str, name: &str) -> (r: String)
    ensures
        r@ == joined(base@, name@),
{
    proof {
        reveal_strlit("/");
        assert("/"@ =~= seq!['/']);
    }
    let mut out = String::new();
    out.append(base);
    out.append("/");
    out.append(name);
    out
}

/// Walks the entries of a directory at `base`, returning the paths of the
/// regular files that the filter keeps, in entry order.
pub fn walk_tree(
    base: &str,
    entries: &Vec<FsTree>,
    inc: Option<&Vec<String>>,
    exc: Option<&Vec<String>>,
) -> (r: Vec<String>)
    ensures
        r.deep_view() == walk_list_spec(
            base@,
            entries@,
            entries@.len() as int,
            subs_view(inc),
            subs_view(exc),
        ),
    decreases entries@, 1nat,
{
    let mut out: Vec<String> = Vec::new();
    let mut i: usize = 0;
    proof {
        assert(out.deep_view() =~= walk_list_spec(
            base@,
            entries@,
            0,
            subs_view(inc),
            subs_view(exc),
        ));
    }
    while i < entries.len()
        invariant
            i <= entries@.len(),
            out.deep_view() == walk_list_spec(
                base@,
                entries@,
                i as int,
                subs_view(inc),
                subs_view(exc),
            ),
        decreases entries@.len() - i,
    {
        let ghost pre = out.deep_view();
        let mut sub = walk_entry(base, &entries[i], inc, exc);
        let ghost subv = sub.deep_view();
        out.append(&mut sub);
        proof {
            assert(out.deep_view() =~= pre + subv);
        }
        i = i + 1;
    }
    out
}

/// Walks one tree entry: prunes it whole where its path fails the filter,
/// returns its path where it is a file that passes, and walks its entries
/// where it is a directory that passes.
pub fn walk_entry(base: &str, e: &FsTree, inc: Option<&Vec<String>>, exc: Option<&Vec<String>>) -> (r:
    Vec<String>)
    ensures
        r.deep_view() == walk_entry_spec(base@, *e, subs_view(inc), subs_view(exc)),
    decreases *e, 0nat,
{
    let path = join_path(base, entry_name_str(e));
    let keep = path_passes_filter(path.as_str(), inc, exc);
    let mut out: Vec<String> = Vec::new();
    if !keep {
        proof {
            assert(out.deep_view() =~= walk_entry_spec(base@, *e, subs_view(inc), subs_view(exc)));
        }
        return out;
    }
    match e {
        FsTree::File { name } => {
            let ghost pathv = path@;
            out.push(path);
            proof {
                assert(out.deep_view() =~= seq![pathv]);
            }
            out
        },
        FsTree::Dir { name, entries } => walk_tree(path.as_str(), entries, inc, exc),
    }
}

} // verus!
