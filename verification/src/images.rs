//! Planning the image copies. For each discovered file the plan holds the
//! path relative to the source root (checked, not assumed: a file outside
//! the root is an error), the target path under the destination root, and
//! the target's parent directory that must exist before the copy. Paths
//! are modeled as `/`-separated strings, as the walker builds them. The
//! caller executes the plan in order: it creates each parent and copies
//! the bytes, overwriting unconditionally.

use vstd::prelude::*;
use vstd::string::StrSliceExecFns;
use vstd::string::StringExecFns;

use crate::text::last_char_index;
use crate::text::last_index_of;
use crate::text::lemma_last_index_bounds;
use crate::text::prefix_of;
use crate::walk::join_path;
use crate::walk::joined;
use crate::walk::lemma_walk_list_under;
use crate::walk::walk_list_spec;
use crate::walk::FsTree;

verus! {

/// The path of `file` relative to the directory `root`: the text after
/// `root` and the `/` that follows it; `None` where `file` does not lie
/// under `root`.
pub open spec fn rel_path_spec(file: Seq<char>, root: Seq<char>) -> Option<Seq<char>> {
    if prefix_of(root + seq!['/'], file) {
        Some(file.subrange(root.len() + 1 as int, file.len() as int))
    } else {
        None
    }
}

/// The directory part of a path: the text before the last `/`.
pub open spec fn parent_dir_spec(p: Seq<char>) -> Option<Seq<char>> {
    match last_index_of(p, '/', p.len() as int) {
        None => None,
        Some(k) => Some(p.subrange(0, k)),
    }
}

/// Where a copy of `file` goes: the relative path joined onto `dest`.
pub open spec fn target_path_spec(file: Seq<char>, src: Seq<char>, dest: Seq<char>) -> Option<
    Seq<char>,
> {
    match rel_path_spec(file, src) {
        None => None,
        Some(rel) => Some(joined(dest, rel)),
    }
}

/// Returns whether `s` starts with `prefix`.
pub fn starts_with_str(s: &str, prefix: &str) -> (r: bool)
    ensures
        r == prefix_of(prefix@, s@),
{
    let n: usize = s.unicode_len();
    let m: usize = prefix.unicode_len();
    if m > n {
        return false;
    }
    let mut j: usize = 0;
    let mut same: bool = true;
    proof {
        assert(s@.subrange(0, 0) =~= prefix@.subrange(0, 0));
    }
    while j < m
        invariant
            j <= m <= n,
            n == s@.len(),
            m == prefix@.len(),
            same <==> s@.subrange(0, j as int) == prefix@.subrange(0, j as int),
        decreases m - j,
    {
        let a = s.get_char(j);
        let b = prefix.get_char(j);
        proof {
            let sext = s@.subrange(0, (j + 1) as int);
            let bext = prefix@.subrange(0, (j + 1) as int);
            assert(sext.drop_last() =~= s@.subrange(0, j as int));
            assert(bext.drop_last() =~= prefix@.subrange(0, j as int));
            assert(sext.last() == a);
            assert(bext.last() == b);
            if same && a == b {
                assert(sext =~= bext);
            }
            if sext == bext {
                assert(sext.drop_last() == bext.drop_last());
                assert(sext.last() == bext.last());
            }
        }
        if a != b {
            same = false;
        }
        j = j + 1;
    }
    proof {
        assert(prefix@.subrange(0, m as int) =~= prefix@);
    }
    same
}

/// Returns the path of `file` relative to the directory `root`, or `None`
/// where `file` does not lie under `root`.
pub fn rel_path(file: &str, root: &str) -> (r: Option<String>)
    ensures
        r is Some <==> rel_path_spec(file@, root@) is Some,
        r matches Some(s) ==> rel_path_spec(file@, root@) == Some(s@),
{
    proof {
        reveal_strlit("/");
        assert("/"@ =~= seq!['/']);
    }
    let n: usize = file.unicode_len();
    let k: usize = root.unicode_len();
    if k >= n {
        proof {
            assert((root@ + seq!['/']).len() > file@.len());
        }
        return None;
    }
    let mut pre = root.to_owned();
    pre.append("/");
    proof {
        assert(pre@ == root@ + seq!['/']);
    }
    if starts_with_str(file, pre.as_str()) {
        let rest = file.substring_char(k + 1, n);
        Some(rest.to_owned())
    } else {
        None
    }
}

/// Returns the directory part of `p`: the text before the last `/`.
pub fn parent_dir(p: &str) -> (r: Option<String>)
    ensures
        r is Some <==> parent_dir_spec(p@) is Some,
        r matches Some(s) ==> parent_dir_spec(p@) == Some(s@),
{
    match last_char_index(p, '/') {
        None => None,
        Some(k) => {
            proof {
                lemma_last_index_bounds(p@, '/', p@.len() as int);
            }
            Some(p.substring_char(0, k).to_owned())
        },
    }
}

/// One planned copy: the source file, the target path, and the target's
/// parent directory to create before copying.
#[derive(Debug)]
pub struct CopyStep {
    pub source: String,
    pub target: String,
    pub target_parent: Option<String>,
}

/// A file that does not lie under the source root: the walk's contract
/// rules it out, but the plan checks it rather than assuming it.
#[derive(Debug)]
pub struct PrefixError {
    pub index: usize,
    pub path: String,
}

/// `st` is the correct copy plan for `file` under the given roots.
pub open spec fn copy_step_ok(file: Seq<char>, src: Seq<char>, dest: Seq<char>, st: CopyStep) -> bool {
    &&& st.source@ == file
    &&& Some(st.target@) == target_path_spec(file, src, dest)
    &&& (match (st.target_parent, parent_dir_spec(st.target@)) {
        (Some(a), Some(b)) => a@ == b,
        (None, None) => true,
        _ => false,
    })
}

/// Every path the walk returns lies under the walked root: planning the
/// image copies of a walk's output cannot fail, since the relative-path
/// computation succeeds for each returned path.
pub proof fn lemma_walk_output_lies_under_root(
    base: Seq<char>,
    es: Seq<FsTree>,
    n: int,
    inc: Option<Seq<Seq<char>>>,
    exc: Option<Seq<Seq<char>>>,
)
    ensures
        forall|k: int|
            0 <= k < walk_list_spec(base, es, n, inc, exc).len() ==> rel_path_spec(
                #[trigger] walk_list_spec(base, es, n, inc, exc)[k],
                base,
            ) is Some,
{
    lemma_walk_list_under(base, es, n, inc, exc);
    assert forall|k: int|
        0 <= k < walk_list_spec(base, es, n, inc, exc).len() implies rel_path_spec(
        #[trigger] walk_list_spec(base, es, n, inc, exc)[k],
        base,
    ) is Some by {
        let q = walk_list_spec(base, es, n, inc, exc)[k];
        assert(walk_list_spec(base, es, n, inc, exc).contains(q));
    }
}

/// Plans the copy of every file in order. Succeeds exactly when every
/// file lies under `src_dir`; fails at the first that does not, naming it
/// and its position.
pub fn plan_copies(files: &Vec<String>, src_dir: &str, dest_dir: &str) -> (r: Result<
    Vec<CopyStep>,
    PrefixError,
>)
    ensures
        r is Ok <==> (forall|k: int|
            0 <= k < files@.len() ==> rel_path_spec(
                files.deep_view()[k],
                src_dir@,
            ) is Some),
        r matches Ok(steps) ==> steps@.len() == files@.len() && forall|k: int|
            0 <= k < files@.len() ==> copy_step_ok(
                files.deep_view()[k],
                src_dir@,
                dest_dir@,
                #[trigger] steps@[k],
            ),
        r matches Err(e) ==> e.index < files@.len() && e.path@ == files.deep_view()[
            e.index as int
        ] && rel_path_spec(files.deep_view()[e.index as int], src_dir@) is None && (forall|j: int|
            0 <= j < e.index ==> rel_path_spec(files.deep_view()[j], src_dir@) is Some),
{
    let mut steps: Vec<CopyStep> = Vec::new();
    let mut i: usize = 0;
    while i < files.len()
        invariant
            i <= files@.len(),
            steps@.len() == i,
            forall|k: int|
                0 <= k < i ==> copy_step_ok(
                    files.deep_view()[k],
                    src_dir@,
                    dest_dir@,
                    #[trigger] steps@[k],
                ),
            forall|k: int| 0 <= k < i ==> rel_path_spec(files.deep_view()[k], src_dir@) is Some,
        decreases files@.len() - i,
    {
        let file: &str = files[i].as_str();
        match rel_path(file, src_dir) {
            None => {
                return Err(PrefixError { index: i, path: files[i].clone() });
            },
            Some(rel) => {
                let target = join_path(dest_dir, rel.as_str());
                let target_parent = parent_dir(target.as_str());
                steps.push(
                    CopyStep { source: files[i].clone(), target, target_parent },
                );
            },
        }
        i = i + 1;
    }
    Ok(steps)
}

} // verus!
