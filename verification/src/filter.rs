//! The two file-selection policies. Markdown files are chosen by *exact
//! name*: the filter entries are bare names, normalized to carry a `.md`
//! suffix, and compared against the file's name (the text after the last
//! `/`). The directory walk instead filters by *substring containment*
//! over the full path string. The two behaviors are deliberately distinct
//! and both are kept.

use vstd::prelude::*;
use vstd::string::StrSliceExecFns;
use vstd::string::StringExecFns;

use crate::text::contains_str;
use crate::text::contains_sub;
use crate::text::ends_with;
use crate::text::ends_with_str;
use crate::text::last_char_index;
use crate::text::last_index_of;
use crate::text::lemma_last_index_bounds;
use crate::text::str_eq;

verus! {

/// The `.md` suffix appended to bare filter names.
pub open spec fn md_suffix() -> Seq<char> {
    seq!['.', 'm', 'd']
}

/// `s` with a `.md` suffix appended unless it already ends in one.
pub open spec fn with_md_ext(s: Seq<char>) -> Seq<char> {
    if ends_with(s, md_suffix()) {
        s
    } else {
        s + md_suffix()
    }
}

/// The file name of a path string: the text after the last `/`.
pub open spec fn file_name_of(p: Seq<char>) -> Seq<char> {
    match last_index_of(p, '/', p.len() as int) {
        None => p,
        Some(k) => p.subrange(k + 1, p.len() as int),
    }
}

/// The extension of a path string: the text of its file name after the
/// last `.`, unless that dot leads the name.
pub open spec fn extension_of(p: Seq<char>) -> Option<Seq<char>> {
    let name = file_name_of(p);
    match last_index_of(name, '.', name.len() as int) {
        None => None,
        Some(k) => if k == 0 {
            None
        } else {
            Some(name.subrange(k + 1, name.len() as int))
        },
    }
}

/// The path names a Markdown file.
pub open spec fn has_md_extension(p: Seq<char>) -> bool {
    extension_of(p) == Some(seq!['m', 'd'])
}

/// Returns the file name of `p`: the text after the last `/`.
pub fn file_name_str<'a>(p: &'a str) -> (r: &'a str)
    ensures
        r@ == file_name_of(p@),
{
    let n: usize = p.unicode_len();
    match last_char_index(p, '/') {
        None => p,
        Some(k) => {
            proof {
                lemma_last_index_bounds(p@, '/', p@.len() as int);
            }
            p.substring_char(k + 1, n)
        },
    }
}

/// Returns whether `p` names a Markdown file (its extension is `md`).
pub fn is_markdown_file(p: &str) -> (r: bool)
    ensures
        r == has_md_extension(p@),
{
    let name = file_name_str(p);
    let n: usize = name.unicode_len();
    match last_char_index(name, '.') {
        None => false,
        Some(k) => {
            proof {
                lemma_last_index_bounds(name@, '.', name@.len() as int);
            }
            if k == 0 || n - k - 1 != 2 {
                proof {
                    assert(seq!['m', 'd'].len() == 2);
                }
                false
            } else {
                let r = name.get_char(k + 1) == 'm' && name.get_char(k + 2) == 'd';
                proof {
                    let ext = name@.subrange(k + 1 as int, n as int);
                    assert(extension_of(p@) == Some(ext));
                    if name@[k + 1] == 'm' && name@[k + 2] == 'd' {
                        assert(ext =~= seq!['m', 'd']);
                    } else {
                        assert(ext[0] == name@[k + 1] && ext[1] == name@[k + 2]);
                    }
                }
                r
            }
        },
    }
}

/// There is an entry of `l` equal to `x`.
pub open spec fn seq_has_name(l: Seq<Seq<char>>, x: Seq<char>) -> bool {
    exists|k: int| 0 <= k < l.len() && l[k] == x
}

/// Returns whether some entry of `list` equals `name`.
pub fn name_in_list(name: &str, list: &Vec<String>) -> (r: bool)
    ensures
        r == seq_has_name(list.deep_view(), name@),
{
    let mut i: usize = 0;
    while i < list.len()
        invariant
            i <= list@.len(),
            forall|k: int| 0 <= k < i ==> list.deep_view()[k] != name@,
        decreases list@.len() - i,
    {
        if str_eq(name, list[i].as_str()) {
            assert(list.deep_view()[i as int] == name@);
            return true;
        }
        i = i + 1;
    }
    false
}

/// The views of an optional list of bare filter names.
pub open spec fn names_view(o: Option<Vec<&str>>) -> Option<Seq<Seq<char>>> {
    match o {
        None => None,
        Some(v) => Some(v.deep_view()),
    }
}

/// The Markdown name filter as a predicate on path views.
pub open spec fn markdown_pred(
    inc: Option<Seq<Seq<char>>>,
    exc: Option<Seq<Seq<char>>>,
) -> spec_fn(Seq<char>) -> bool {
    |p: Seq<char>| markdown_name_passes(p, inc, exc)
}

/// The Markdown name filter: `p` is a Markdown file; if `inc` is present
/// and non-empty, `p`'s file name is one of its entries (normalized to a
/// `.md` suffix); no entry of `exc` (normalized the same way) equals `p`'s
/// file name.
pub open spec fn markdown_name_passes(
    p: Seq<char>,
    inc: Option<Seq<Seq<char>>>,
    exc: Option<Seq<Seq<char>>>,
) -> bool {
    &&& has_md_extension(p)
    &&& (match inc {
        None => true,
        Some(l) => l.len() == 0 || exists|k: int|
            0 <= k < l.len() && file_name_of(p) == with_md_ext(l[k]),
    })
    &&& (match exc {
        None => true,
        Some(l) => forall|k: int| 0 <= k < l.len() ==> file_name_of(p) != with_md_ext(l[k]),
    })
}

/// Returns each name of `paths` with a `.md` suffix appended where it was
/// missing.
pub fn add_md_ext(paths: Vec<&str>) -> (r: Vec<String>)
    ensures
        r@.len() == paths@.len(),
        forall|k: int| 0 <= k < paths@.len() ==> r.deep_view()[k] == with_md_ext(
            paths@[k]@,
        ),
{
    proof {
        reveal_strlit(".md");
        assert(".md"@ =~= md_suffix());
    }
    let mut out: Vec<String> = Vec::new();
    let mut i: usize = 0;
    while i < paths.len()
        invariant
            i <= paths@.len(),
            out@.len() == i,
            ".md"@ == md_suffix(),
            forall|k: int| 0 <= k < i ==> out.deep_view()[k] == with_md_ext(paths@[k]@),
        decreases paths@.len() - i,
    {
        let ghost pre = out.deep_view();
        let p: &str = paths[i];
        if ends_with_str(p, ".md") {
            out.push(p.to_owned());
        } else {
            let mut t = p.to_owned();
            t.append(".md");
            out.push(t);
        }
        proof {
            assert(out.deep_view() =~= pre.push(with_md_ext(paths@[i as int]@)));
        }
        i = i + 1;
    }
    out
}

/// Keeps exactly the Markdown files of `files` that pass the name filter
/// built from `inc` and `exc`, in their input order.
#[verifier::loop_isolation(false)]
pub fn filter_markdown_files(
    files: Vec<String>,
    inc: Option<Vec<&str>>,
    exc: Option<Vec<&str>>,
) -> (r: Vec<String>)
    ensures
        r.deep_view() == files.deep_view().filter(markdown_pred(names_view(inc), names_view(exc))),
{
    let ghost incv = names_view(inc);
    let ghost excv = names_view(exc);
    let ghost pred = markdown_pred(incv, excv);
    let inc_md: Option<Vec<String>> = match inc {
        None => None,
        Some(l) => Some(add_md_ext(l)),
    };
    let exc_md: Option<Vec<String>> = match exc {
        None => None,
        Some(l) => Some(add_md_ext(l)),
    };
    let mut out: Vec<String> = Vec::new();
    let mut i: usize = 0;
    while i < files.len()
        invariant
            i <= files@.len(),
            match (inc_md, incv) {
                (None, None) => true,
                (Some(v), Some(l)) => v@.len() == l.len() && forall|k: int|
                    0 <= k < l.len() ==> v.deep_view()[k] == with_md_ext(l[k]),
                _ => false,
            },
            match (exc_md, excv) {
                (None, None) => true,
                (Some(v), Some(l)) => v@.len() == l.len() && forall|k: int|
                    0 <= k < l.len() ==> v.deep_view()[k] == with_md_ext(l[k]),
                _ => false,
            },
            out.deep_view() == files.deep_view().take(i as int).filter(pred),
        decreases files@.len() - i,
    {
        let f: &str = files[i].as_str();
        proof {
            assert(f@ == files.deep_view()[i as int]);
        }
        let ghost name = file_name_of(f@);
        let md = is_markdown_file(f);
        let inc_ok: bool = match &inc_md {
            None => true,
            Some(lst) => {
                if lst.len() == 0 {
                    true
                } else {
                    let hit = name_in_list(file_name_str(f), lst);
                    proof {
                        let l = incv->0;
                        if seq_has_name(lst.deep_view(), name) {
                            let k = choose|k: int|
                                0 <= k < lst.deep_view().len() && lst.deep_view()[k] == name;
                            assert(name == with_md_ext(l[k]));
                        }
                        if exists|k: int| 0 <= k < l.len() && name == with_md_ext(l[k]) {
                            let k = choose|k: int| 0 <= k < l.len() && name == with_md_ext(l[k]);
                            assert(lst.deep_view()[k] == name);
                        }
                    }
                    hit
                }
            },
        };
        let exc_ok: bool = match &exc_md {
            None => true,
            Some(lst) => {
                let hit = name_in_list(file_name_str(f), lst);
                proof {
                    let l = excv->0;
                    if seq_has_name(lst.deep_view(), name) {
                        let k = choose|k: int|
                            0 <= k < lst.deep_view().len() && lst.deep_view()[k] == name;
                        assert(name == with_md_ext(l[k]));
                    }
                    if exists|k: int| 0 <= k < l.len() && name == with_md_ext(l[k]) {
                        let k = choose|k: int| 0 <= k < l.len() && name == with_md_ext(l[k]);
                        assert(lst.deep_view()[k] == name);
                    }
                }
                !hit
            },
        };
        let keep = md && inc_ok && exc_ok;
        proof {
            let dv = files.deep_view();
            assert(md == has_md_extension(dv[i as int]));
            assert(inc_ok == match incv {
                None => true,
                Some(l) => l.len() == 0 || exists|k: int|
                    0 <= k < l.len() && file_name_of(dv[i as int]) == with_md_ext(l[k]),
            });
            assert(exc_ok == match excv {
                None => true,
                Some(l) => forall|k: int|
                    0 <= k < l.len() ==> file_name_of(dv[i as int]) != with_md_ext(l[k]),
            });
            assert(pred(dv[i as int]) == markdown_name_passes(dv[i as int], incv, excv));
            assert(keep == pred(dv[i as int]));
            reveal(Seq::filter);
            assert(dv.take(i + 1 as int).drop_last() =~= dv.take(i as int));
            assert(dv.take(i + 1 as int).last() == dv[i as int]);
        }
        let ghost pre = out.deep_view();
        if keep {
            out.push(files[i].clone());
            proof {
                assert(out.deep_view() =~= pre.push(files.deep_view()[i as int]));
            }
        }
        i = i + 1;
    }
    proof {
        assert(files.deep_view().take(files@.len() as int) =~= files.deep_view());
    }
    out
}

/// The views of an optional borrowed list of substrings.
pub open spec fn subs_view(o: Option<&Vec<String>>) -> Option<Seq<Seq<char>>> {
    match o {
        None => None,
        Some(v) => Some(v.deep_view()),
    }
}

/// If `inc` is present and non-empty, `p` contains one of its entries as
/// a substring.
pub open spec fn passes_include_subs(p: Seq<char>, inc: Option<Seq<Seq<char>>>) -> bool {
    match inc {
        None => true,
        Some(l) => l.len() == 0 || exists|k: int| 0 <= k < l.len() && contains_sub(p, l[k]),
    }
}

/// `p` contains no entry of `exc` as a substring.
pub open spec fn passes_exclude_subs(p: Seq<char>, exc: Option<Seq<Seq<char>>>) -> bool {
    match exc {
        None => true,
        Some(l) => forall|k: int| 0 <= k < l.len() ==> !contains_sub(p, l[k]),
    }
}

/// The substring path filter used by the directory walk.
pub open spec fn passes_path_filter(
    p: Seq<char>,
    inc: Option<Seq<Seq<char>>>,
    exc: Option<Seq<Seq<char>>>,
) -> bool {
    passes_include_subs(p, inc) && passes_exclude_subs(p, exc)
}

/// Returns whether some entry of `list` occurs in `path` as a substring.
fn contains_any(path: &str, list: &Vec<String>) -> (r: bool)
    ensures
        r == exists|k: int|
            0 <= k < list.deep_view().len() && contains_sub(path@, list.deep_view()[k]),
{
    let mut i: usize = 0;
    while i < list.len()
        invariant
            i <= list@.len(),
            forall|k: int| 0 <= k < i ==> !contains_sub(path@, list.deep_view()[k]),
        decreases list@.len() - i,
    {
        if contains_str(path, list[i].as_str()) {
            assert(contains_sub(path@, list.deep_view()[i as int]));
            return true;
        }
        i = i + 1;
    }
    false
}

/// Returns whether the full path string passes the substring filter: it
/// contains an allowed entry (when some are given) and no denied
/// entry.
pub fn path_passes_filter(
    path: &str,
    inc: Option<&Vec<String>>,
    exc: Option<&Vec<String>>,
) -> (r: bool)
    ensures
        r == passes_path_filter(path@, subs_view(inc), subs_view(exc)),
{
    let mut ok = true;
    if let Some(l) = inc {
        if l.len() > 0 {
            ok = contains_any(path, l);
        }
    }
    if ok {
        if let Some(l) = exc {
            if contains_any(path, l) {
                ok = false;
            }
        }
    }
    ok
}

} // verus!
