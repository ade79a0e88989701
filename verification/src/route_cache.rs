//! The generated route cache: which top-level directories of a public directory
//! hold generated route pages.
use vstd::prelude::*;

use crate::manifest::{no_duplicates, push_unique};
use crate::manifest::{law_push_all_unique, push_all_unique};
use crate::text::{
    chars_eq, chars_of, copy_string, keep_nonempty, lemma_views_push, path_segments, segments_of,
    string_from_chars, views,
};

verus! {

/// The first non-empty `/`-separated segment of a route output directory, if any.
pub open spec fn top_level_dir(output_dir: Seq<char>) -> Option<Seq<char>> {
    if path_segments(output_dir).len() > 0 {
        Some(path_segments(output_dir)[0])
    } else {
        None
    }
}

/// The distinct top-level directories of `output_dirs`, in order of first appearance.
pub open spec fn top_level_dirs(output_dirs: Seq<Seq<char>>) -> Seq<Seq<char>>
    decreases output_dirs.len(),
{
    if output_dirs.len() == 0 {
        Seq::empty()
    } else {
        let dirs = top_level_dirs(output_dirs.drop_last());
        match top_level_dir(output_dirs.last()) {
            Some(dir) => push_unique(dirs, dir),
            None => dirs,
        }
    }
}

/// The views of a sequence of string slices.
pub open spec fn str_views(s: Seq<&str>) -> Seq<Seq<char>> {
    s.map_values(|x: &str| x@)
}

fn contains_chars(dirs: &Vec<String>, dir: &Vec<char>) -> (res: bool)
    ensures
        res == views(dirs@).contains(dir@),
{
    let mut i: usize = 0;
    while i < dirs.len()
        invariant
            i <= dirs@.len(),
            forall|j: int| 0 <= j < i ==> dirs@[j]@ != dir@,
        decreases dirs@.len() - i,
    {
        let v = chars_of(dirs[i].as_str());
        if chars_eq(&v, dir) {
            proof {
                assert(views(dirs@)[i as int] == dir@);
            }
            return true;
        }
        i += 1;
    }
    proof {
        if views(dirs@).contains(dir@) {
            let k = choose|k: int| 0 <= k < views(dirs@).len() && views(dirs@)[k] == dir@;
            assert(dirs@[k]@ == dir@);
        }
    }
    false
}

/// The distinct top-level directories that hold the given route output directories,
/// in order of first appearance; root outputs contribute none.
pub fn generated_top_level_dirs(route_output_dirs: &[&str]) -> (res: Vec<String>)
    ensures
        views(res@) == top_level_dirs(str_views(route_output_dirs@)),
{
    let ghost outputs = str_views(route_output_dirs@);
    let mut top: Vec<String> = Vec::new();
    let mut i: usize = 0;
    proof {
        assert(views(top@) =~= Seq::<Seq<char>>::empty());
        assert(outputs.take(0) =~= Seq::<Seq<char>>::empty());
    }
    while i < route_output_dirs.len()
        invariant
            i <= route_output_dirs@.len(),
            outputs == str_views(route_output_dirs@),
            views(top@) == top_level_dirs(outputs.take(i as int)),
        decreases route_output_dirs@.len() - i,
    {
        let v = chars_of(route_output_dirs[i]);
        let segments = segments_of(&v);
        proof {
            assert(outputs.take(i + 1).drop_last() == outputs.take(i as int));
            assert(outputs.take(i + 1).last() == route_output_dirs@[i as int]@);
        }
        if segments.len() > 0 {
            let dir = &segments[0];
            if !contains_chars(&top, dir) {
                let ghost before = top@;
                top.push(string_from_chars(dir));
                proof {
                    assert(views(top@) =~= views(before).push(dir@));
                }
            }
        }
        i += 1;
    }
    proof {
        assert(outputs.take(route_output_dirs@.len() as int) == outputs);
    }
    top
}

proof fn lemma_push_unique_no_duplicates(paths: Seq<Seq<char>>, p: Seq<char>)
    requires
        no_duplicates(paths),
    ensures
        no_duplicates(push_unique(paths, p)),
{
    if !paths.contains(p) {
        let r = paths.push(p);
        assert forall|i: int, j: int| 0 <= i < j < r.len() implies r[i] != r[j] by {
            if j == paths.len() {
                if r[i] == r[j] {
                    assert(paths[i] == p);
                }
            }
        }
    }
}

/// The top-level directories never hold a directory twice, and each one is the first
/// segment of some given output directory.
pub proof fn law_top_level_dirs_distinct(output_dirs: Seq<Seq<char>>)
    ensures
        no_duplicates(top_level_dirs(output_dirs)),
        forall|i: int|
            0 <= i < top_level_dirs(output_dirs).len() ==> exists|k: int|
                0 <= k < output_dirs.len() && top_level_dir(output_dirs[k]) == Some(
                    #[trigger] top_level_dirs(output_dirs)[i],
                ),
    decreases output_dirs.len(),
{
    if output_dirs.len() > 0 {
        let prev = output_dirs.drop_last();
        law_top_level_dirs_distinct(prev);
        let dirs = top_level_dirs(prev);
        let result = top_level_dirs(output_dirs);
        match top_level_dir(output_dirs.last()) {
            Some(dir) => {
                lemma_push_unique_no_duplicates(dirs, dir);
            },
            None => {},
        }
        assert forall|i: int| 0 <= i < result.len() implies exists|k: int|
            0 <= k < output_dirs.len() && top_level_dir(output_dirs[k]) == Some(
                #[trigger] result[i],
            ) by {
            if i < dirs.len() {
                assert(result[i] == dirs[i]);
                let k = choose|k: int|
                    0 <= k < prev.len() && top_level_dir(prev[k]) == Some(#[trigger] dirs[i]);
                assert(output_dirs[k] == prev[k]);
            } else {
                assert(output_dirs[output_dirs.len() - 1] == output_dirs.last());
            }
        }
    }
}

/// Every top-level directory is a single directory name: non-empty and free of `/`.
pub proof fn law_top_level_dirs_are_single_names(output_dirs: Seq<Seq<char>>)
    ensures
        forall|i: int|
            0 <= i < top_level_dirs(output_dirs).len() ==> #[trigger] top_level_dirs(
                output_dirs,
            )[i].len() > 0 && !top_level_dirs(output_dirs)[i].contains('/'),
{
    law_top_level_dirs_distinct(output_dirs);
    let dirs = top_level_dirs(output_dirs);
    assert forall|i: int| 0 <= i < dirs.len() implies #[trigger] dirs[i].len() > 0 && !dirs[i].contains(
        '/',
    ) by {
        let k = choose|k: int|
            0 <= k < output_dirs.len() && top_level_dir(output_dirs[k]) == Some(#[trigger] dirs[i]);
        crate::text::lemma_path_segments_wf(output_dirs[k]);
        assert(path_segments(output_dirs[k])[0] == dirs[i]);
    }
}

/// The generated directories a cleanup removes: the non-empty names, each once,
/// in order of first appearance.
pub open spec fn dirs_to_remove(generated_top_level_dirs: Seq<Seq<char>>) -> Seq<Seq<char>> {
    push_all_unique(Seq::empty(), keep_nonempty(generated_top_level_dirs))
}

/// The directories of a public directory that a cleanup of the generated route
/// cache removes, given the top-level directories of the generated routes.
pub fn generated_dirs_to_remove(generated_top_level_dirs: &[String]) -> (res: Vec<String>)
    ensures
        views(res@) == dirs_to_remove(views(generated_top_level_dirs@)),
        no_duplicates(views(res@)),
        forall|x: Seq<char>|
            #[trigger] views(res@).contains(x) <==> (x.len() > 0 && views(
                generated_top_level_dirs@,
            ).contains(x)),
{
    proof {
        law_removed_dirs_are_the_nonempty_names(views(generated_top_level_dirs@));
    }
    let ghost all = views(generated_top_level_dirs@);
    let mut res: Vec<String> = Vec::new();
    let mut i: usize = 0;
    proof {
        assert(views(res@) =~= Seq::<Seq<char>>::empty());
        assert(all.take(0) =~= Seq::<Seq<char>>::empty());
    }
    while i < generated_top_level_dirs.len()
        invariant
            i <= generated_top_level_dirs@.len(),
            all == views(generated_top_level_dirs@),
            views(res@) == dirs_to_remove(all.take(i as int)),
        decreases generated_top_level_dirs@.len() - i,
    {
        let dir = &generated_top_level_dirs[i];
        let ghost prefix = all.take(i as int);
        proof {
            assert(all.take(i + 1).drop_last() =~= prefix);
            assert(all.take(i + 1).last() == dir@);
            assert(all.take(i + 1) =~= prefix.push(dir@));
            assert(prefix.push(dir@).drop_last() =~= prefix);
        }
        if !dir.as_str().is_empty() {
            let v = chars_of(dir.as_str());
            if !contains_chars(&res, &v) {
                let d = copy_string(dir);
                let ghost before = res@;
                res.push(d);
                proof {
                    lemma_views_push(before, d);
                }
            }
            proof {
                assert(keep_nonempty(prefix.push(dir@)) == keep_nonempty(prefix).push(dir@));
                assert(keep_nonempty(prefix).push(dir@).drop_last() =~= keep_nonempty(prefix));
            }
        } else {
            proof {
                assert(keep_nonempty(prefix.push(dir@)) == keep_nonempty(prefix));
            }
        }
        i += 1;
    }
    proof {
        assert(all.take(generated_top_level_dirs@.len() as int) =~= all);
    }
    res
}

proof fn lemma_keep_nonempty_contains(parts: Seq<Seq<char>>, x: Seq<char>)
    ensures
        keep_nonempty(parts).contains(x) <==> (x.len() > 0 && parts.contains(x)),
    decreases parts.len(),
{
    if parts.len() > 0 {
        let prev = parts.drop_last();
        lemma_keep_nonempty_contains(prev, x);
        let kept = keep_nonempty(prev);
        assert(parts.contains(x) <==> (prev.contains(x) || parts.last() == x)) by {
            if parts.contains(x) {
                let k = choose|k: int| 0 <= k < parts.len() && parts[k] == x;
                if k < prev.len() {
                    assert(prev[k] == x);
                }
            }
            if prev.contains(x) {
                let k = choose|k: int| 0 <= k < prev.len() && prev[k] == x;
                assert(parts[k] == x);
            }
            if parts.last() == x {
                assert(parts[parts.len() - 1] == x);
            }
        }
        if parts.last().len() > 0 {
            assert(keep_nonempty(parts) == kept.push(parts.last()));
            assert(kept.push(parts.last()).contains(x) <==> (kept.contains(x) || parts.last() == x)) by {
                let r = kept.push(parts.last());
                if r.contains(x) {
                    let k = choose|k: int| 0 <= k < r.len() && r[k] == x;
                    if k < kept.len() {
                        assert(kept[k] == x);
                    }
                }
                if kept.contains(x) {
                    let k = choose|k: int| 0 <= k < kept.len() && kept[k] == x;
                    assert(r[k] == x);
                }
                if parts.last() == x {
                    assert(r[kept.len() as int] == x);
                }
            }
        } else {
            assert(keep_nonempty(parts) == kept);
        }
    }
}

/// A cleanup removes exactly the non-empty generated directory names it is given,
/// each once.
pub proof fn law_removed_dirs_are_the_nonempty_names(generated_top_level_dirs: Seq<Seq<char>>)
    ensures
        no_duplicates(dirs_to_remove(generated_top_level_dirs)),
        forall|x: Seq<char>|
            #[trigger] dirs_to_remove(generated_top_level_dirs).contains(x) <==> (x.len() > 0
                && generated_top_level_dirs.contains(x)),
{
    let kept = keep_nonempty(generated_top_level_dirs);
    law_push_all_unique(Seq::empty(), kept);
    assert forall|x: Seq<char>|
        #[trigger] dirs_to_remove(generated_top_level_dirs).contains(x) <==> (x.len() > 0
            && generated_top_level_dirs.contains(x)) by {
        lemma_keep_nonempty_contains(generated_top_level_dirs, x);
        assert(push_all_unique(Seq::empty(), kept).contains(x) <==> (Seq::<Seq<char>>::empty().contains(x)
            || kept.contains(x)));
    }
}

} // verus!
