//! Copying and moving whole directories of entries. The files found below
//! the old directory are planned as pairs of names, old and new, and the
//! pairs are carried out one after the other, each through a workspace of
//! its own.

use vstd::multiset::Multiset;
use vstd::prelude::*;
use vstd::relations::sorted_by;
use vstd::seq_lib::{
    group_to_multiset_ensures, lemma_sorted_unique, to_multiset_build, to_multiset_len,
};
use vstd::string::StringExecFns;
use crate::error::{Error, ErrorModel};
use crate::names::{dir_name, dir_path, get_dir_name, get_dir_path, get_pass_path, pass_path};
use crate::order::{lemma_pair_order_total, pair_order, pairs_view, sort_pairs};
use crate::text::{from_chars, matches_at, starts_with, to_chars};

verus! {

/// Whether a path below a directory is the durable file of an entry: its
/// file name ends in `.gpg` and is more than that ending.
pub open spec fn is_entry_file(rest: Seq<char>) -> bool {
    &&& rest.len() > 4
    &&& rest.subrange(rest.len() - 4, rest.len() as int) == seq!['.', 'g', 'p', 'g']
    &&& rest[rest.len() - 5] != '/'
}

/// The name of what lies at `rest` in the directory `dir`. The store itself
/// is the directory without a name.
pub open spec fn joined(dir: Seq<char>, rest: Seq<char>) -> Seq<char> {
    if dir.len() == 0 {
        rest
    } else {
        dir + seq!['/'] + rest
    }
}

/// What the path of everything below the directory `old` begins with. The
/// slashes that `old` may end in do not count.
pub open spec fn dir_prefix(root: Seq<char>, old: Seq<char>) -> Seq<char> {
    root + seq!['/'] + joined(dir_name(old), Seq::empty())
}

/// What a file found at `path` adds to the plan of moving the directory
/// `old` to `new`: nothing, unless it is the durable file of an entry below
/// `old`; else the entry's name and the name it gets, which is the old one
/// with `new` in the place of `old`.
pub open spec fn planned(
    root: Seq<char>,
    old: Seq<char>,
    new: Seq<char>,
    path: Seq<char>,
) -> Option<(Seq<char>, Seq<char>)> {
    let prefix = dir_prefix(root, old);
    if prefix.is_prefix_of(path) && is_entry_file(path.skip(prefix.len() as int)) {
        let rest = path.subrange(prefix.len() as int, path.len() - 4);
        Some((joined(dir_name(old), rest), joined(dir_name(new), rest)))
    } else {
        None
    }
}

/// The plan of moving the directory `old` to `new`, given the files found
/// below `old`: one pair for each durable file, in the order of `files`.
pub open spec fn plan_of(
    root: Seq<char>,
    old: Seq<char>,
    new: Seq<char>,
    files: Seq<Seq<char>>,
) -> Seq<(Seq<char>, Seq<char>)> {
    files.filter_map(|path: Seq<char>| planned(root, old, new, path))
}

/// Whether every one of `files` lies below the directory `old`.
pub open spec fn all_below(root: Seq<char>, old: Seq<char>, files: Seq<Seq<char>>) -> bool {
    forall|i: int|
        0 <= i < files.len() ==> dir_prefix(root, old).is_prefix_of(#[trigger] files[i])
}

/// Whether the directory `new` is the directory `old` or lies in it.
pub open spec fn within(old: Seq<char>, new: Seq<char>) -> bool {
    new == old || (old + seq!['/']).is_prefix_of(new)
}

/// Whether one of the new names of a plan lies in the directory `old`.
pub open spec fn lands_below(old: Seq<char>, plan: Seq<(Seq<char>, Seq<char>)>) -> bool {
    exists|i: int| 0 <= i < plan.len() && (old + seq!['/']).is_prefix_of((#[trigger] plan[i]).1)
}

/// Whether the old directory is still in use after a move: the new
/// directory is the old one or lies in it, or an entry was moved to a place
/// in it.
pub open spec fn still_used(
    old: Seq<char>,
    new: Seq<char>,
    plan: Seq<(Seq<char>, Seq<char>)>,
) -> bool {
    within(old, new) || lands_below(old, plan)
}

/// The plan in the order in which it is carried out: that of the
/// dictionary, by the old names.
pub open spec fn sorted_plan(
    root: Seq<char>,
    old: Seq<char>,
    new: Seq<char>,
    files: Seq<Seq<char>>,
) -> Seq<(Seq<char>, Seq<char>)> {
    plan_of(root, old, new, files).sort_by(pair_order())
}

/// What one file adds to a plan, as a multiset.
pub open spec fn share(
    root: Seq<char>,
    old: Seq<char>,
    new: Seq<char>,
    path: Seq<char>,
) -> Multiset<(Seq<char>, Seq<char>)> {
    match planned(root, old, new, path) {
        Some(pair) => Multiset::empty().insert(pair),
        None => Multiset::empty(),
    }
}

proof fn lemma_plan_last(root: Seq<char>, old: Seq<char>, new: Seq<char>, files: Seq<Seq<char>>)
    requires
        files.len() > 0,
    ensures
        plan_of(root, old, new, files).to_multiset() == plan_of(
            root,
            old,
            new,
            files.drop_last(),
        ).to_multiset().add(share(root, old, new, files.last())),
{
    let before = plan_of(root, old, new, files.drop_last());
    match planned(root, old, new, files.last()) {
        Some(pair) => {
            assert(plan_of(root, old, new, files) == before + seq![pair]);
            assert(before + seq![pair] =~= before.push(pair));
            to_multiset_build(before, pair);
            assert(before.to_multiset().insert(pair) =~= before.to_multiset().add(
                Multiset::empty().insert(pair),
            ));
        },
        None => {
            assert(plan_of(root, old, new, files) == before);
            assert(before.to_multiset().add(Multiset::empty()) =~= before.to_multiset());
        },
    }
}

proof fn lemma_plan_without(
    root: Seq<char>,
    old: Seq<char>,
    new: Seq<char>,
    files: Seq<Seq<char>>,
    i: int,
)
    requires
        0 <= i < files.len(),
    ensures
        plan_of(root, old, new, files).to_multiset() == plan_of(
            root,
            old,
            new,
            files.remove(i),
        ).to_multiset().add(share(root, old, new, files[i])),
    decreases files.len(),
{
    lemma_plan_last(root, old, new, files);
    if i == files.len() - 1 {
        assert(files.remove(i) =~= files.drop_last());
    } else {
        let shorter = files.drop_last();
        lemma_plan_without(root, old, new, shorter, i);
        let rest = files.remove(i);
        assert(rest.drop_last() =~= shorter.remove(i));
        assert(rest.last() == files.last());
        assert(shorter[i] == files[i]);
        lemma_plan_last(root, old, new, rest);
        let a = plan_of(root, old, new, shorter.remove(i)).to_multiset();
        let x = share(root, old, new, files[i]);
        let y = share(root, old, new, files.last());
        assert(a.add(x).add(y) =~= a.add(y).add(x));
    }
}

proof fn lemma_plan_multiset(
    root: Seq<char>,
    old: Seq<char>,
    new: Seq<char>,
    one: Seq<Seq<char>>,
    other: Seq<Seq<char>>,
)
    requires
        one.to_multiset() == other.to_multiset(),
    ensures
        plan_of(root, old, new, one).to_multiset() == plan_of(root, old, new, other).to_multiset(),
    decreases one.len(),
{
    broadcast use group_to_multiset_ensures;

    to_multiset_len(one);
    to_multiset_len(other);
    if one.len() == 0 {
        assert(one =~= other);
    } else {
        let x = one.last();
        assert(one.contains(x)) by {
            assert(one[one.len() - 1] == x);
        }
        assert(other.to_multiset().count(x) > 0);
        assert(other.contains(x));
        let i = choose|i: int| 0 <= i < other.len() && other[i] == x;
        assert(one.drop_last() =~= one.remove(one.len() - 1));
        assert(one.drop_last().to_multiset() =~= one.to_multiset().remove(x));
        assert(other.remove(i).to_multiset() =~= other.to_multiset().remove(x));
        lemma_plan_multiset(root, old, new, one.drop_last(), other.remove(i));
        lemma_plan_last(root, old, new, one);
        lemma_plan_without(root, old, new, other, i);
    }
}

/// The plan does not depend on the order in which the files were found: two
/// walks that find the same files give the same plan.
pub proof fn lemma_plan_ignores_walk_order(
    root: Seq<char>,
    old: Seq<char>,
    new: Seq<char>,
    one: Seq<Seq<char>>,
    other: Seq<Seq<char>>,
)
    requires
        one.to_multiset() == other.to_multiset(),
    ensures
        sorted_plan(root, old, new, one) == sorted_plan(root, old, new, other),
{
    lemma_plan_multiset(root, old, new, one, other);
    lemma_pair_order_total();
    plan_of(root, old, new, one).lemma_sort_by_ensures(pair_order());
    plan_of(root, old, new, other).lemma_sort_by_ensures(pair_order());
    lemma_sorted_unique(
        sorted_plan(root, old, new, one),
        sorted_plan(root, old, new, other),
        pair_order(),
    );
}

/// The plan is sorted, and a pair is planned exactly if one of the files
/// gives it: every durable file below the old directory is in the plan, and
/// nothing else is.
pub proof fn lemma_sorted_plan_pairs(
    root: Seq<char>,
    old: Seq<char>,
    new: Seq<char>,
    files: Seq<Seq<char>>,
    pair: (Seq<char>, Seq<char>),
)
    ensures
        sorted_by(sorted_plan(root, old, new, files), pair_order()),
        sorted_plan(root, old, new, files).len() == plan_of(root, old, new, files).len(),
        sorted_plan(root, old, new, files).contains(pair) <==> exists|i: int|
            0 <= i < files.len() && planned(root, old, new, #[trigger] files[i]) == Some(pair),
{
    broadcast use group_to_multiset_ensures;

    lemma_pair_order_total();
    plan_of(root, old, new, files).lemma_sort_by_ensures(pair_order());
    lemma_plan_pairs(root, old, new, files, pair);
    let raw = plan_of(root, old, new, files);
    let sorted = sorted_plan(root, old, new, files);
    to_multiset_len(raw);
    to_multiset_len(sorted);
    assert(sorted.contains(pair) <==> sorted.to_multiset().count(pair) > 0);
    assert(raw.contains(pair) <==> raw.to_multiset().count(pair) > 0);
}

/// A pair is among what the files give, in the order found, exactly if one
/// of the files gives it.
pub proof fn lemma_plan_pairs(
    root: Seq<char>,
    old: Seq<char>,
    new: Seq<char>,
    files: Seq<Seq<char>>,
    pair: (Seq<char>, Seq<char>),
)
    ensures
        plan_of(root, old, new, files).contains(pair) <==> exists|i: int|
            0 <= i < files.len() && planned(root, old, new, #[trigger] files[i]) == Some(pair),
    decreases files.len(),
{
    let f = |path: Seq<char>| planned(root, old, new, path);
    if files.len() > 0 {
        let rest = files.drop_last();
        lemma_plan_pairs(root, old, new, rest, pair);
        let before = plan_of(root, old, new, rest);
        let all = plan_of(root, old, new, files);
        assert(all == match f(files.last()) {
            Some(p) => before + seq![p],
            None => before,
        });
        if all.contains(pair) {
            let k = choose|k: int| 0 <= k < all.len() && all[k] == pair;
            if k < before.len() {
                assert(before[k] == pair);
                assert(before.contains(pair));
                let i = choose|i: int|
                    0 <= i < rest.len() && planned(root, old, new, #[trigger] rest[i]) == Some(pair);
                assert(files[i] == rest[i]);
            } else {
                assert(planned(root, old, new, files[files.len() - 1]) == Some(pair));
            }
        }
        if exists|i: int|
            0 <= i < files.len() && planned(root, old, new, #[trigger] files[i]) == Some(pair) {
            let i = choose|i: int|
                0 <= i < files.len() && planned(root, old, new, #[trigger] files[i]) == Some(pair);
            if i < rest.len() {
                assert(rest[i] == files[i]);
                assert(before.contains(pair));
                let k = choose|k: int| 0 <= k < before.len() && before[k] == pair;
                assert(all[k] == pair);
            } else {
                assert(all[all.len() - 1] == pair);
            }
        }
    }
}

/// The name of what lies at `v[from..to]` in the directory `dir`.
fn below_dir(dir: &Vec<char>, v: &Vec<char>, from: usize, to: usize) -> (name: Vec<char>)
    requires
        from <= to <= v.len(),
    ensures
        name@ == joined(dir@, v@.subrange(from as int, to as int)),
{
    let mut name: Vec<char> = Vec::new();
    let mut i: usize = 0;
    while i < dir.len()
        invariant
            i <= dir.len(),
            name@ == dir@.take(i as int),
        decreases dir.len() - i,
    {
        name.push(dir[i]);
        assert(dir@.take(i + 1) == dir@.take(i as int).push(dir@[i as int]));
        i += 1;
    }
    assert(dir@.take(dir.len() as int) == dir@);
    if dir.len() > 0 {
        name.push('/');
    }
    let ghost head = name@;
    let mut k: usize = from;
    assert(head + v@.subrange(from as int, from as int) == head);
    while k < to
        invariant
            from <= k <= to <= v.len(),
            name@ == head + v@.subrange(from as int, k as int),
        decreases to - k,
    {
        name.push(v[k]);
        assert(v@.subrange(from as int, k + 1) == v@.subrange(from as int, k as int).push(
            v@[k as int],
        ));
        k += 1;
    }
    proof {
        if dir.len() == 0 {
            assert(head + v@.subrange(from as int, to as int) == v@.subrange(
                from as int,
                to as int,
            ));
        }
    }
    name
}

/// The characters of a directory's name without the slashes at its end.
fn dir_chars(name: &str) -> (dir: Vec<char>)
    ensures
        dir@ == dir_name(name@),
{
    to_chars(get_dir_name(name).as_str())
}

/// The characters with which the path of everything below the directory
/// `old_pass` begins.
fn get_dir_prefix(root: &str, old_pass: &str) -> (prefix: Vec<char>)
    ensures
        prefix@ == dir_prefix(root@, old_pass@),
{
    let mut prefix = to_chars(root);
    prefix.push('/');
    let dir = dir_chars(old_pass);
    let empty: Vec<char> = Vec::new();
    let mut tail = below_dir(&dir, &empty, 0, 0);
    assert(empty@.subrange(0, 0) == Seq::<char>::empty());
    prefix.append(&mut tail);
    prefix
}

/// Plans one file.
fn plan_file(prefix: &Vec<char>, old: &Vec<char>, new: &Vec<char>, file: &str) -> (pair: Option<
    (Vec<char>, Vec<char>),
>)
    ensures
        match pair {
            Some(p) => prefix@.is_prefix_of(file@) && is_entry_file(
                file@.skip(prefix@.len() as int),
            ) && p.0@ == joined(old@, file@.subrange(prefix@.len() as int, file@.len() - 4))
                && p.1@ == joined(new@, file@.subrange(prefix@.len() as int, file@.len() - 4)),
            None => !(prefix@.is_prefix_of(file@) && is_entry_file(
                file@.skip(prefix@.len() as int),
            )),
        },
{
    let v = to_chars(file);
    let ending: Vec<char> = vec!['.', 'g', 'p', 'g'];
    assert(ending@ == seq!['.', 'g', 'p', 'g']);
    if !matches_at(&v, 0, prefix) {
        assert(prefix@.is_prefix_of(v@) ==> v@.subrange(0, prefix@.len() as int) == prefix@);
        return None;
    }
    assert(prefix@.is_prefix_of(v@)) by {
        assert(v@.subrange(0, 0 + prefix@.len() as int) == prefix@);
    }
    let start = prefix.len();
    let n = v.len();
    let ghost tail = v@.skip(start as int);
    if n - start <= 4 {
        return None;
    }
    assert(tail.subrange(tail.len() - 4, tail.len() as int) == v@.subrange(n - 4, n as int));
    assert(tail[tail.len() - 5] == v@[n - 5]);
    if !matches_at(&v, n - 4, &ending) || v[n - 5] == '/' {
        return None;
    }
    Some((below_dir(old, &v, start, n - 4), below_dir(new, &v, start, n - 4)))
}

/// Plans the move of the directory `old_pass` to `new_pass`: for each of
/// `files`, the paths found below the old directory, that is the durable
/// file of an entry, the entry's name and its new name. The pairs come in
/// the order of the dictionary, whatever the order of `files`. Either
/// directory may be named with slashes at its end.
pub fn get_pass_files_recursively(
    root: &str,
    old_pass: &str,
    new_pass: &str,
    files: &Vec<String>,
) -> (plan: Vec<(String, String)>)
    ensures
        plan.deep_view() == sorted_plan(root@, old_pass@, new_pass@, files.deep_view()),
{
    let prefix = get_dir_prefix(root, old_pass);
    let old = dir_chars(old_pass);
    let new = dir_chars(new_pass);
    let ghost f = |path: Seq<char>| planned(root@, old_pass@, new_pass@, path);
    let mut found: Vec<(Vec<char>, Vec<char>)> = Vec::new();
    let mut i: usize = 0;
    assert(files.deep_view().take(0) == Seq::<Seq<char>>::empty());
    assert(pairs_view(found@) =~= Seq::empty());
    while i < files.len()
        invariant
            i <= files.len(),
            prefix@ == dir_prefix(root@, old_pass@),
            old@ == dir_name(old_pass@),
            new@ == dir_name(new_pass@),
            f == |path: Seq<char>| planned(root@, old_pass@, new_pass@, path),
            pairs_view(found@) == files.deep_view().take(i as int).filter_map(f),
        decreases files.len() - i,
    {
        proof {
            files.deep_view().lemma_filter_map_take_succ(f, i as int);
            assert(files.deep_view()[i as int] == files@[i as int]@);
        }
        let ghost before = pairs_view(found@);
        match plan_file(&prefix, &old, &new, files[i].as_str()) {
            Some(pair) => {
                let ghost item = (pair.0@, pair.1@);
                found.push(pair);
                assert(pairs_view(found@) =~= before + seq![item]);
            },
            None => {},
        }
        i += 1;
    }
    assert(files.deep_view().take(files.len() as int) == files.deep_view());
    let sorted = sort_pairs(found);
    let mut plan: Vec<(String, String)> = Vec::new();
    let mut k: usize = 0;
    assert(plan.deep_view() =~= pairs_view(sorted@).take(0));
    while k < sorted.len()
        invariant
            k <= sorted.len(),
            plan.deep_view() == pairs_view(sorted@).take(k as int),
        decreases sorted.len() - k,
    {
        let ghost before = plan.deep_view();
        let name = from_chars(&sorted[k].0);
        let new_name = from_chars(&sorted[k].1);
        plan.push((name, new_name));
        assert(plan.deep_view() =~= before.push((sorted@[k as int].0@, sorted@[k as int].1@)));
        assert(pairs_view(sorted@).take(k + 1) =~= before.push(
            (sorted@[k as int].0@, sorted@[k as int].1@),
        ));
        k += 1;
    }
    assert(pairs_view(sorted@).take(sorted.len() as int) == pairs_view(sorted@));
    plan
}

/// Tests whether every one of `files` lies below the directory `old_pass`.
pub fn files_below(root: &str, old_pass: &str, files: &Vec<String>) -> (below: bool)
    ensures
        below == all_below(root@, old_pass@, files.deep_view()),
{
    let prefix = get_dir_prefix(root, old_pass);
    let mut i: usize = 0;
    while i < files.len()
        invariant
            i <= files.len(),
            prefix@ == dir_prefix(root@, old_pass@),
            forall|k: int| 0 <= k < i ==> prefix@.is_prefix_of(#[trigger] files.deep_view()[k]),
        decreases files.len() - i,
    {
        let v = to_chars(files[i].as_str());
        assert(files.deep_view()[i as int] == files@[i as int]@);
        if !starts_with(&v, &prefix) {
            return false;
        }
        i += 1;
    }
    true
}

/// Tests whether the old directory is still in use after a move.
pub fn is_still_used(old_pass: &str, new_pass: &str, plan: &Vec<(String, String)>) -> (used: bool)
    ensures
        used == still_used(old_pass@, new_pass@, plan.deep_view()),
{
    let mut prefix = to_chars(old_pass);
    prefix.push('/');
    let new = to_chars(new_pass);
    if String::from_str(old_pass) == String::from_str(new_pass) || starts_with(&new, &prefix) {
        return true;
    }
    let mut i: usize = 0;
    while i < plan.len()
        invariant
            i <= plan.len(),
            prefix@ == old_pass@ + seq!['/'],
            forall|k: int| 0 <= k < i ==> !prefix@.is_prefix_of((#[trigger] plan.deep_view()[k]).1),
        decreases plan.len() - i,
    {
        let v = to_chars(plan[i].1.as_str());
        assert(plan.deep_view()[i as int].1 == plan@[i as int].1@);
        if starts_with(&v, &prefix) {
            return true;
        }
        i += 1;
    }
    false
}

/// Every durable file that was found below the old directory is planned:
/// none is left behind by a move, none is missing from a copy.
pub proof fn lemma_every_entry_found_is_planned(
    root: Seq<char>,
    old: Seq<char>,
    new: Seq<char>,
    files: Seq<Seq<char>>,
    i: int,
)
    requires
        0 <= i < files.len(),
        all_below(root, old, files),
        is_entry_file(files[i].skip(dir_prefix(root, old).len() as int)),
    ensures
        planned(root, old, new, files[i]) is Some,
        sorted_plan(root, old, new, files).contains(planned(root, old, new, files[i])->0),
{
    assert(dir_prefix(root, old).is_prefix_of(files[i]));
    lemma_sorted_plan_pairs(root, old, new, files, planned(root, old, new, files[i])->0);
}

/// What a copy or a move starts from: the directory `old_pass` if there is
/// one, else the entry `old_pass` if it has a durable file. The answer holds
/// the old place, whether it is a directory, and the new place.
pub fn find_recursion(
    root: &str,
    old_pass: &str,
    new_pass: &str,
    old_is_dir: bool,
    old_file_exists: bool,
) -> (result: Result<(String, bool, String), Error>)
    ensures
        match result {
            Ok((old_root, recursive, new_root)) => {
                &&& old_is_dir || old_file_exists
                &&& recursive == old_is_dir
                &&& old_root@ == (if old_is_dir {
                    dir_path(root@, old_pass@)
                } else {
                    pass_path(root@, old_pass@)
                })
                &&& new_root@ == (if old_is_dir {
                    dir_path(root@, new_pass@)
                } else {
                    pass_path(root@, new_pass@)
                })
            },
            Err(error) => {
                &&& !old_is_dir
                &&& !old_file_exists
                &&& error@ == ErrorModel::PassDoesNotExist { pass_name: old_pass@ }
            },
        },
{
    if old_is_dir {
        Ok((get_dir_path(root, old_pass), true, get_dir_path(root, new_pass)))
    } else if old_file_exists {
        Ok((get_pass_path(root, old_pass), false, get_pass_path(root, new_pass)))
    } else {
        Err(Error::PassDoesNotExist { pass_name: String::from_str(old_pass) })
    }
}

} // verus!
