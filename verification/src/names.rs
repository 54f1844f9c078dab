//! Entry names and the places they stand for. An entry name is a relative,
//! slash-separated path such as `email/work`, written in the one way there
//! is to write it: without empty segments, `.` or `..`. Its durable file is
//! `<root>/<name>.gpg`, and the directories above it may each hold a
//! recipient marker `.gpg-id`.

use vstd::prelude::*;
use vstd::string::StringExecFns;
use crate::text::{substring, to_chars};

verus! {

/// Whether a segment that is exactly `..` starts at index `i` of `s`.
pub open spec fn dotdot_at(s: Seq<char>, i: int) -> bool {
    &&& 0 <= i
    &&& i + 2 <= s.len()
    &&& s[i] == '.'
    &&& s[i + 1] == '.'
    &&& (i == 0 || s[i - 1] == '/')
    &&& (i + 2 == s.len() || s[i + 2] == '/')
}

/// Whether a segment that is exactly `.` starts at index `i` of `s`.
pub open spec fn dot_at(s: Seq<char>, i: int) -> bool {
    &&& 0 <= i < s.len()
    &&& s[i] == '.'
    &&& (i == 0 || s[i - 1] == '/')
    &&& (i + 1 == s.len() || s[i + 1] == '/')
}

/// Whether the `/` at index `i` of `s` stands beside an empty segment: it
/// is the first character, or the last, or another `/` follows it.
pub open spec fn gap_at(s: Seq<char>, i: int) -> bool {
    &&& 0 <= i < s.len()
    &&& s[i] == '/'
    &&& (i == 0 || i + 1 == s.len() || s[i + 1] == '/')
}

/// An entry name is not empty, and none of its segments is empty, `.` or
/// `..`. So a name is relative, leads nowhere but down, and is the only
/// name of what it names: two names that differ name two files.
pub open spec fn valid_name(name: Seq<char>) -> bool {
    &&& name.len() > 0
    &&& forall|i: int| !gap_at(name, i)
    &&& forall|i: int| !dot_at(name, i)
    &&& forall|i: int| !dotdot_at(name, i)
}

/// Tests whether `name` can name an entry.
pub fn is_valid_name(name: &str) -> (ok: bool)
    ensures
        ok == valid_name(name@),
{
    let v = to_chars(name);
    let n = v.len();
    if n == 0 {
        return false;
    }
    let mut i: usize = 0;
    while i < n
        invariant
            n == v.len(),
            v@ == name@,
            i <= n,
            forall|j: int| 0 <= j < i ==> !gap_at(v@, j),
            forall|j: int| 0 <= j < i ==> !dot_at(v@, j),
            forall|j: int| 0 <= j < i ==> !dotdot_at(v@, j),
        decreases n - i,
    {
        let first = i == 0 || v[i - 1] == '/';
        if v[i] == '/' && (i == 0 || i + 1 == n || v[i + 1] == '/') {
            assert(gap_at(v@, i as int));
            return false;
        }
        if first && v[i] == '.' && (i + 1 == n || v[i + 1] == '/') {
            assert(dot_at(v@, i as int));
            return false;
        }
        if first && n - i >= 2 && v[i] == '.' && v[i + 1] == '.' && (i + 2 == n || v[i + 2]
            == '/') {
            assert(dotdot_at(v@, i as int));
            return false;
        }
        i += 1;
    }
    true
}

/// The index behind the last character of `s` that is not a `/`.
pub open spec fn trimmed_end(s: Seq<char>) -> int
    decreases s.len(),
{
    if s.len() > 0 && s.last() == '/' {
        trimmed_end(s.drop_last())
    } else {
        s.len() as int
    }
}

/// A directory's name as it was typed, without the slashes at its end: a
/// directory may be named `web` or `web/`.
pub open spec fn dir_name(name: Seq<char>) -> Seq<char> {
    name.take(trimmed_end(name))
}

/// The index behind the last character of `v` that is not a `/`.
pub(crate) fn trim_slashes(v: &Vec<char>) -> (end: usize)
    ensures
        end <= v.len(),
        end == trimmed_end(v@),
{
    let mut end: usize = v.len();
    assert(v@.take(end as int) == v@);
    while end > 0 && v[end - 1] == '/'
        invariant
            end <= v.len(),
            trimmed_end(v@) == trimmed_end(v@.take(end as int)),
        decreases end,
    {
        assert(v@.take(end as int).drop_last() == v@.take(end - 1));
        end -= 1;
    }
    proof {
        if end > 0 {
            assert(v@.take(end as int).last() == v@[end - 1]);
        }
    }
    end
}

/// Takes the slashes off the end of a directory's name.
pub fn get_dir_name(name: &str) -> (dir: String)
    ensures
        dir@ == dir_name(name@),
{
    let v = to_chars(name);
    let end = trim_slashes(&v);
    let dir = substring(&v, 0, end);
    assert(v@.subrange(0, end as int) == v@.take(end as int));
    dir
}

/// The durable file of the entry `name` in the store at `root`.
pub open spec fn pass_path(root: Seq<char>, name: Seq<char>) -> Seq<char> {
    root + seq!['/'] + name + seq!['.', 'g', 'p', 'g']
}

/// The directory `name` of the store at `root`.
pub open spec fn dir_path(root: Seq<char>, name: Seq<char>) -> Seq<char> {
    root + seq!['/'] + name
}

/// The path of the directory `name` of the store at `root`.
pub fn get_dir_path(root: &str, name: &str) -> (path: String)
    ensures
        path@ == dir_path(root@, name@),
{
    let mut path = String::from_str(root);
    path.append("/");
    path.append(name);
    proof {
        reveal_strlit("/");
        assert("/"@ == seq!['/']);
    }
    path
}

/// The durable file of an entry relative to the store's root, which is what
/// version control is told.
pub open spec fn pass_file(name: Seq<char>) -> Seq<char> {
    name + seq!['.', 'g', 'p', 'g']
}

/// The path of the durable file of `pass_name` in the store at `root`.
pub fn get_pass_path(root: &str, pass_name: &str) -> (path: String)
    ensures
        path@ == pass_path(root@, pass_name@),
{
    let mut path = String::from_str(root);
    path.append("/");
    path.append(pass_name);
    path.append(".gpg");
    proof {
        reveal_strlit("/");
        reveal_strlit(".gpg");
        assert("/"@ == seq!['/']);
        assert(".gpg"@ == seq!['.', 'g', 'p', 'g']);
    }
    path
}

/// The name of the durable file of `pass_name` below the store's root.
pub fn get_pass_file(pass_name: &str) -> (file: String)
    ensures
        file@ == pass_file(pass_name@),
{
    let mut file = String::from_str(pass_name);
    file.append(".gpg");
    proof {
        reveal_strlit(".gpg");
        assert(".gpg"@ == seq!['.', 'g', 'p', 'g']);
    }
    file
}

/// Two names have the same durable file only if they are the same name.
pub proof fn lemma_pass_path_injective(root: Seq<char>, a: Seq<char>, b: Seq<char>)
    requires
        pass_path(root, a) == pass_path(root, b),
    ensures
        a == b,
{
    let pa = pass_path(root, a);
    let pb = pass_path(root, b);
    assert(pa.len() == root.len() + 1 + a.len() + 4);
    assert(pb.len() == root.len() + 1 + b.len() + 4);
    assert(a.len() == b.len());
    assert forall|i: int| 0 <= i < a.len() implies a[i] == b[i] by {
        assert(pa[root.len() + 1 + i] == a[i]);
        assert(pb[root.len() + 1 + i] == b[i]);
    }
    assert(a =~= b);
}

/// The index of the last `/` of `s`, or -1 where it has none.
pub open spec fn last_slash(s: Seq<char>) -> int
    decreases s.len(),
{
    if s.len() == 0 {
        -1
    } else if s.last() == '/' {
        s.len() - 1
    } else {
        last_slash(s.drop_last())
    }
}

/// `last_slash` finds an index of `s` that holds a `/` with none behind it,
/// or -1 where no index holds one.
pub proof fn lemma_last_slash(s: Seq<char>)
    ensures
        -1 <= last_slash(s) < s.len(),
        last_slash(s) >= 0 ==> s[last_slash(s)] == '/',
        forall|j: int| last_slash(s) < j < s.len() ==> s[j] != '/',
    decreases s.len(),
{
    if s.len() > 0 && s.last() != '/' {
        lemma_last_slash(s.drop_last());
        assert forall|j: int| last_slash(s) < j < s.len() implies s[j] != '/' by {
            if j < s.len() - 1 {
                assert(s.drop_last()[j] == s[j]);
            }
        }
    }
}

/// The directory that holds `name`: what stands before its last `/`, the
/// empty sequence (the root) where it has none.
pub open spec fn parent_dir(name: Seq<char>) -> Seq<char> {
    if last_slash(name) < 0 {
        Seq::empty()
    } else {
        name.take(last_slash(name))
    }
}

/// The directories above `name`, nearest first, the root last.
pub open spec fn ancestors(name: Seq<char>) -> Seq<Seq<char>>
    decreases name.len(),
{
    if name.len() == 0 {
        Seq::empty()
    } else {
        proof {
            lemma_last_slash(name);
        }
        seq![parent_dir(name)] + ancestors(parent_dir(name))
    }
}

/// The recipient marker of the directory `dir` of the store at `root`.
pub open spec fn marker_path(root: Seq<char>, dir: Seq<char>) -> Seq<char> {
    if dir.len() == 0 {
        root + seq!['/', '.', 'g', 'p', 'g', '-', 'i', 'd']
    } else {
        root + seq!['/'] + dir + seq!['/', '.', 'g', 'p', 'g', '-', 'i', 'd']
    }
}

/// The markers that may govern the entry `name`, nearest first.
pub open spec fn marker_paths(root: Seq<char>, name: Seq<char>) -> Seq<Seq<char>> {
    ancestors(name).map_values(|dir: Seq<char>| marker_path(root, dir))
}

/// The path of the marker of the directory `v[..end]`.
fn marker_of(root: &str, v: &Vec<char>, end: usize) -> (path: String)
    requires
        end <= v.len(),
    ensures
        path@ == marker_path(root@, v@.take(end as int)),
{
    let mut path = String::from_str(root);
    if end > 0 {
        let dir = substring(v, 0, end);
        path.append("/");
        path.append(dir.as_str());
    }
    path.append("/.gpg-id");
    proof {
        reveal_strlit("/");
        reveal_strlit("/.gpg-id");
        assert("/"@ == seq!['/']);
        assert("/.gpg-id"@ == seq!['/', '.', 'g', 'p', 'g', '-', 'i', 'd']);
    }
    path
}

/// The paths of the markers that may govern the entry `pass_name`, from the
/// directory that holds the entry up to the store's root.
pub fn get_marker_paths(root: &str, pass_name: &str) -> (paths: Vec<String>)
    ensures
        paths.deep_view() == marker_paths(root@, pass_name@),
{
    let v = to_chars(pass_name);
    let mut paths: Vec<String> = Vec::new();
    let mut end: usize = v.len();
    assert(v@.take(end as int) == v@);
    while end > 0
        invariant
            end <= v.len(),
            v@ == pass_name@,
            paths.deep_view() + marker_paths(root@, v@.take(end as int)) == marker_paths(
                root@,
                v@,
            ),
        decreases end,
    {
        let ghost cur = v@.take(end as int);
        let mut k: usize = end;
        while k > 0 && v[k - 1] != '/'
            invariant
                k <= end <= v.len(),
                forall|j: int| k <= j < end ==> v@[j] != '/',
            decreases k,
        {
            k -= 1;
        }
        // the parent of `cur` is `v[..k - 1]`, or the root where `k` is 0
        let parent_end: usize = if k > 0 { k - 1 } else { 0 };
        proof {
            lemma_last_slash(cur);
            let ls = last_slash(cur);
            if k > 0 {
                assert(cur[k - 1] == '/');
                if ls < k - 1 {
                    assert(cur[k - 1] != '/');
                }
                if ls > k - 1 {
                    assert(cur[ls] == '/');
                    assert(v@[ls] != '/');
                }
                assert(ls == k - 1);
                assert(cur.take(ls) == v@.take(parent_end as int));
            } else {
                if ls >= 0 {
                    assert(cur[ls] == '/');
                    assert(v@[ls] != '/');
                }
                assert(ls == -1);
                assert(v@.take(0) == Seq::<char>::empty());
            }
            assert(parent_dir(cur) == v@.take(parent_end as int));
        }
        let path = marker_of(root, &v, parent_end);
        let ghost before = paths.deep_view();
        paths.push(path);
        proof {
            let parent = v@.take(parent_end as int);
            assert(paths.deep_view() == before.push(marker_path(root@, parent)));
            assert(ancestors(cur) == seq![parent] + ancestors(parent));
            assert(marker_paths(root@, cur) == seq![marker_path(root@, parent)] + marker_paths(
                root@,
                parent,
            ));
            assert(before.push(marker_path(root@, parent)) + marker_paths(root@, parent) == before
                + marker_paths(root@, cur));
        }
        end = parent_end;
    }
    proof {
        assert(v@.take(0).len() == 0);
        assert(marker_paths(root@, v@.take(0)) == Seq::<Seq<char>>::empty());
        assert(paths.deep_view() + Seq::<Seq<char>>::empty() == paths.deep_view());
    }
    paths
}

/// Whether no segment of `s` is `..`.
pub open spec fn no_dotdot(s: Seq<char>) -> bool {
    forall|i: int| !dotdot_at(s, i)
}

/// Whether `path` lies in the store at `root`: it is the root, a `/`, and a
/// rest of which no segment is `..`, so that nothing leads out again.
pub open spec fn inside(root: Seq<char>, path: Seq<char>) -> bool {
    exists|rest: Seq<char>| path == root + seq!['/'] + rest && #[trigger] no_dotdot(rest)
}

proof fn lemma_ending_keeps_no_dotdot(name: Seq<char>)
    requires
        no_dotdot(name),
    ensures
        no_dotdot(name + seq!['.', 'g', 'p', 'g']),
{
    let tail = seq!['.', 'g', 'p', 'g'];
    let all = name + tail;
    let n = name.len() as int;
    assert forall|i: int| !dotdot_at(all, i) by {
        if dotdot_at(all, i) {
            if i + 1 < n {
                assert(all[i] == name[i]);
                assert(all[i + 1] == name[i + 1]);
                if i > 0 {
                    assert(all[i - 1] == name[i - 1]);
                }
                if i + 2 < n {
                    assert(all[i + 2] == name[i + 2]);
                    assert(dotdot_at(name, i));
                } else {
                    assert(all[i + 2] == tail[0]);
                }
            } else if i + 1 == n {
                assert(all[i + 2] == tail[1]);
            } else {
                assert(all[i + 1] == tail[i + 1 - n]);
            }
        }
    }
}

/// The durable file of an entry lies in the store.
pub proof fn lemma_pass_path_inside(root: Seq<char>, name: Seq<char>)
    requires
        valid_name(name),
    ensures
        inside(root, pass_path(root, name)),
{
    let tail = seq!['.', 'g', 'p', 'g'];
    lemma_ending_keeps_no_dotdot(name);
    assert(no_dotdot(name + tail));
    assert(pass_path(root, name) =~= root + seq!['/'] + (name + tail));
}

/// A directory of the store lies in the store.
pub proof fn lemma_dir_path_inside(root: Seq<char>, name: Seq<char>)
    requires
        valid_name(name),
    ensures
        inside(root, dir_path(root, name)),
{
    assert(no_dotdot(name));
}

proof fn lemma_parent_no_dotdot(name: Seq<char>)
    requires
        no_dotdot(name),
    ensures
        no_dotdot(parent_dir(name)),
{
    lemma_last_slash(name);
    let parent = parent_dir(name);
    let k = last_slash(name);
    assert forall|i: int| !dotdot_at(parent, i) by {
        if dotdot_at(parent, i) {
            assert(parent[i] == name[i]);
            assert(parent[i + 1] == name[i + 1]);
            if i > 0 {
                assert(parent[i - 1] == name[i - 1]);
            }
            if i + 2 < parent.len() {
                assert(parent[i + 2] == name[i + 2]);
            }
            assert(dotdot_at(name, i));
        }
    }
}

proof fn lemma_ancestors_no_dotdot(name: Seq<char>, k: int)
    requires
        no_dotdot(name),
        0 <= k < ancestors(name).len(),
    ensures
        no_dotdot(ancestors(name)[k]),
    decreases name.len(),
{
    lemma_last_slash(name);
    lemma_parent_no_dotdot(name);
    if k > 0 {
        lemma_ancestors_no_dotdot(parent_dir(name), k - 1);
    }
}

/// Every marker that may govern an entry lies in the store.
pub proof fn lemma_marker_paths_inside(root: Seq<char>, name: Seq<char>, k: int)
    requires
        valid_name(name),
        0 <= k < marker_paths(root, name).len(),
    ensures
        inside(root, marker_paths(root, name)[k]),
{
    let dir = ancestors(name)[k];
    lemma_ancestors_no_dotdot(name, k);
    let path = marker_paths(root, name)[k];
    assert(path == marker_path(root, dir));
    if dir.len() == 0 {
        let rest = seq!['.', 'g', 'p', 'g', '-', 'i', 'd'];
        assert forall|i: int| !dotdot_at(rest, i) by {
            if dotdot_at(rest, i) {
                assert(rest[i + 1] == '.');
            }
        }
        assert(no_dotdot(rest));
        assert(path =~= root + seq!['/'] + rest);
    } else {
        let tail = seq!['/', '.', 'g', 'p', 'g', '-', 'i', 'd'];
        lemma_marker_tail(dir);
        assert(no_dotdot(dir + tail));
        assert(path =~= root + seq!['/'] + (dir + tail));
    }
}

proof fn lemma_marker_tail(dir: Seq<char>)
    requires
        no_dotdot(dir),
    ensures
        no_dotdot(dir + seq!['/', '.', 'g', 'p', 'g', '-', 'i', 'd']),
{
    let tail = seq!['/', '.', 'g', 'p', 'g', '-', 'i', 'd'];
    let all = dir + tail;
    let n = dir.len() as int;
    assert forall|i: int| !dotdot_at(all, i) by {
        if dotdot_at(all, i) {
            if i + 1 < n {
                assert(all[i] == dir[i]);
                assert(all[i + 1] == dir[i + 1]);
                if i > 0 {
                    assert(all[i - 1] == dir[i - 1]);
                }
                if i + 2 < n {
                    assert(all[i + 2] == dir[i + 2]);
                }
                assert(dotdot_at(dir, i));
            } else if i + 1 == n {
                assert(all[i + 1] == tail[0]);
            } else {
                assert(all[i] == tail[i - n]);
                assert(all[i + 1] == tail[i + 1 - n]);
            }
        }
    }
}

} // verus!
