//! Grouping of files by the folder that holds them.

use vstd::prelude::*;
use crate::paths::{parent, path_parent};

verus! {

pub type Groups = Seq<(Seq<char>, Seq<Seq<char>>)>;

/// Index of the group whose folder is `key`.
pub open spec fn group_index(g: Groups, key: Seq<char>) -> Option<int>
    decreases g.len(),
{
    if g.len() == 0 {
        None
    } else if g.last().0 == key {
        Some(g.len() - 1)
    } else {
        group_index(g.drop_last(), key)
    }
}

/// `f` added at the end of the group of `key` (a new group if none).
pub open spec fn add_to_group(g: Groups, key: Seq<char>, f: Seq<char>) -> Groups {
    match group_index(g, key) {
        Some(i) => g.update(i, (key, g[i].1.push(f))),
        None => g.push((key, seq![f])),
    }
}

/// Groups of `files` by parent folder, in order of first appearance; the
/// files of a group keep their order; files without a parent are left out.
pub open spec fn groups_of(files: Seq<Seq<char>>) -> Groups
    decreases files.len(),
{
    if files.len() == 0 {
        Seq::empty()
    } else {
        let g = groups_of(files.drop_last());
        match path_parent(files.last()) {
            None => g,
            Some(p) => add_to_group(g, p, files.last()),
        }
    }
}

pub open spec fn group_views(v: Seq<(String, Vec<String>)>) -> Groups {
    Seq::new(v.len(), |i: int| (v[i].0@, Seq::new(v[i].1@.len(), |j: int| v[i].1@[j]@)))
}

pub open spec fn file_views(v: Seq<String>) -> Seq<Seq<char>> {
    Seq::new(v.len(), |i: int| v[i]@)
}

pub proof fn lemma_group_index(g: Groups, key: Seq<char>)
    ensures
        group_index(g, key) matches Some(i) ==> 0 <= i < g.len() && g[i].0 == key,
        group_index(g, key) is None ==> forall|i: int| 0 <= i < g.len() ==> g[i].0 != key,
    decreases g.len(),
{
    if g.len() > 0 && g.last().0 != key {
        lemma_group_index(g.drop_last(), key);
        assert forall|i: int| 0 <= i < g.len() && group_index(g, key) is None implies g[i].0 != key by {
            if i < g.len() - 1 {
                assert(g.drop_last()[i] == g[i]);
            }
        }
    }
}

pub open spec fn keys_distinct(g: Groups) -> bool {
    forall|i: int, j: int| 0 <= i < j < g.len() ==> g[i].0 != g[j].0
}

/// No folder has two groups.
pub proof fn law_groups_keys_distinct(files: Seq<Seq<char>>)
    ensures
        keys_distinct(groups_of(files)),
    decreases files.len(),
{
    if files.len() > 0 {
        law_groups_keys_distinct(files.drop_last());
        let g = groups_of(files.drop_last());
        if let Some(p) = path_parent(files.last()) {
            lemma_group_index(g, p);
        }
    }
}

/// Every file with a parent folder is in the group of that folder.
pub proof fn law_every_file_grouped(files: Seq<Seq<char>>, k: int)
    requires
        0 <= k < files.len(),
        path_parent(files[k]) is Some,
    ensures
        exists|i: int, j: int|
            0 <= i < groups_of(files).len() && 0 <= j < groups_of(files)[i].1.len()
                && groups_of(files)[i].0 == path_parent(files[k])->0 && groups_of(files)[i].1[j] == files[k],
    decreases files.len(),
{
    let g = groups_of(files.drop_last());
    if k == files.len() - 1 {
        let p = path_parent(files.last())->0;
        lemma_group_index(g, p);
        match group_index(g, p) {
            Some(i) => {
                let gi = groups_of(files)[i].1;
                assert(gi[gi.len() - 1] == files[k]);
            },
            None => {
                assert(groups_of(files)[g.len() as int].1[0] == files[k]);
            },
        }
    } else {
        law_every_file_grouped(files.drop_last(), k);
        assert(files.drop_last()[k] == files[k]);
        let (i, j) = choose|i: int, j: int|
            0 <= i < g.len() && 0 <= j < g[i].1.len() && g[i].0 == path_parent(files[k])->0 && g[i].1[j] == files[k];
        match path_parent(files.last()) {
            None => {},
            Some(p) => {
                lemma_group_index(g, p);
                match group_index(g, p) {
                    Some(x) => {
                        if x == i {
                            assert(groups_of(files)[i].1[j] == files[k]);
                        } else {
                            assert(groups_of(files)[i] == g[i]);
                        }
                    },
                    None => {
                        assert(groups_of(files)[i] == g[i]);
                    },
                }
            },
        }
    }
}

/// Whether `f` lies directly in the folder `p`.
pub open spec fn in_folder(p: Seq<char>) -> spec_fn(Seq<char>) -> bool {
    |f: Seq<char>| path_parent(f) == Some(p)
}

proof fn lemma_filter_none(s: Seq<Seq<char>>, p: Seq<char>)
    requires
        forall|i: int| 0 <= i < s.len() ==> path_parent(#[trigger] s[i]) != Some(p),
    ensures
        s.filter(in_folder(p)).len() == 0,
    decreases s.len(),
{
    reveal(Seq::filter);
    if s.len() > 0 {
        assert forall|i: int| 0 <= i < s.drop_last().len() implies path_parent(#[trigger] s.drop_last()[i]) != Some(p) by {
            assert(s.drop_last()[i] == s[i]);
        }
        lemma_filter_none(s.drop_last(), p);
        assert(path_parent(s[s.len() - 1]) != Some(p));
    }
}

/// Each group holds exactly the files of its folder, in their order (the same
/// file listed twice is kept twice), and is not empty; with
/// [`law_every_file_grouped`], the folders of the groups are exactly the
/// parents of the files.
pub proof fn law_groups_are_folders(files: Seq<Seq<char>>)
    ensures
        forall|i: int| 0 <= i < groups_of(files).len() ==> (#[trigger] groups_of(files)[i]).1
            == files.filter(in_folder(groups_of(files)[i].0)) && groups_of(files)[i].1.len() > 0,
    decreases files.len(),
{
    reveal(Seq::filter);
    if files.len() > 0 {
        let rest = files.drop_last();
        let f = files.last();
        let g = groups_of(rest);
        law_groups_are_folders(rest);
        law_groups_keys_distinct(rest);
        let g2 = groups_of(files);
        match path_parent(f) {
            None => {
                assert forall|i: int| 0 <= i < g2.len() implies (#[trigger] g2[i]).1
                    == files.filter(in_folder(g2[i].0)) && g2[i].1.len() > 0 by {
                    assert(!in_folder(g2[i].0)(f));
                    assert(files.filter(in_folder(g2[i].0)) == rest.filter(in_folder(g2[i].0)));
                }
            },
            Some(p) => {
                lemma_group_index(g, p);
                match group_index(g, p) {
                    Some(x) => {
                        assert forall|i: int| 0 <= i < g2.len() implies (#[trigger] g2[i]).1
                            == files.filter(in_folder(g2[i].0)) && g2[i].1.len() > 0 by {
                            if i == x {
                                assert(in_folder(p)(f));
                                assert(files.filter(in_folder(p)) == rest.filter(in_folder(p)).push(f));
                            } else {
                                assert(g2[i] == g[i]);
                                assert(g[i].0 != p);
                                assert(!in_folder(g2[i].0)(f));
                                assert(files.filter(in_folder(g2[i].0)) == rest.filter(in_folder(g2[i].0)));
                            }
                        }
                    },
                    None => {
                        assert forall|i: int| 0 <= i < g2.len() implies (#[trigger] g2[i]).1
                            == files.filter(in_folder(g2[i].0)) && g2[i].1.len() > 0 by {
                            if i == g.len() {
                                assert forall|k: int| 0 <= k < rest.len() implies path_parent(#[trigger] rest[k]) != Some(p) by {
                                    if path_parent(rest[k]) == Some(p) {
                                        law_every_file_grouped(rest, k);
                                    }
                                }
                                lemma_filter_none(rest, p);
                                assert(in_folder(p)(f));
                                assert(files.filter(in_folder(p)) =~= rest.filter(in_folder(p)).push(f));
                                assert(g2[i].1 =~= seq![f]);
                            } else {
                                assert(g2[i] == g[i]);
                                assert(g[i].0 != p);
                                assert(!in_folder(g2[i].0)(f));
                                assert(files.filter(in_folder(g2[i].0)) == rest.filter(in_folder(g2[i].0)));
                            }
                        }
                    },
                }
            },
        }
    }
}

/// Groups the files by parent folder (files without a parent, such as `/`,
/// are left out). Groups come in order of first appearance.
pub fn group_by_parent(files: &Vec<String>) -> (res: Vec<(String, Vec<String>)>)
    ensures
        group_views(res@) == groups_of(file_views(files@)),
{
    let ghost fv = file_views(files@);
    let mut out: Vec<(String, Vec<String>)> = Vec::new();
    let mut i: usize = 0;
    while i < files.len()
        invariant
            i <= files@.len(),
            fv == file_views(files@),
            group_views(out@) == groups_of(fv.take(i as int)),
        decreases files@.len() - i,
    {
        let f = &files[i];
        assert(fv.take(i + 1).drop_last() =~= fv.take(i as int));
        assert(fv.take(i + 1).last() == f@);
        let ghost g = group_views(out@);
        match parent(f.as_str()) {
            None => {},
            Some(p) => {
                proof { lemma_group_index(g, p@); }
                // Look for the group of `p`, from the end.
                let mut k = out.len();
                assert(g.take(k as int) =~= g);
                while k > 0 && out[k - 1].0 != p
                    invariant
                        k <= out@.len(),
                        g == group_views(out@),
                        group_index(g, p@) == group_index(g.take(k as int), p@),
                    decreases k,
                {
                    assert(g.take(k as int).drop_last() =~= g.take(k - 1));
                    k -= 1;
                }
                if k == 0 {
                    assert(g.take(0) =~= Seq::<(Seq<char>, Seq<Seq<char>>)>::empty());
                    let mut members: Vec<String> = Vec::new();
                    members.push(f.clone());
                    let ghost pv = p@;
                    out.push((p, members));
                    assert(group_views(out@)[g.len() as int].1 =~= seq![f@]);
                    assert(group_views(out@) =~= g.push((pv, seq![f@])));
                    assert(group_views(out@) =~= add_to_group(g, pv, f@));
                } else {
                    assert(g.take(k as int).last() == g[k - 1]);
                    assert(group_index(g, p@) == Some(k - 1));
                    let ghost old_out = out@;
                    let mut entry = out.remove(k - 1);
                    entry.1.push(f.clone());
                    out.insert(k - 1, entry);
                    assert(group_views(out@) =~= add_to_group(g, p@, f@)) by {
                        assert forall|x: int| 0 <= x < out@.len() implies #[trigger] group_views(out@)[x] == add_to_group(g, p@, f@)[x] by {
                            if x != k - 1 {
                                assert(out@[x] == old_out[x]);
                            } else {
                                assert(group_views(out@)[x].1 =~= g[x].1.push(f@));
                            }
                        }
                    }
                }
            },
        }
        i += 1;
    }
    assert(fv.take(files@.len() as int) =~= fv);
    out
}

} // verus!
