//! Where a plaintext may be put for an editor. The place of choice is
//! volatile: `/dev/shm`, which is gone when the machine stops. A file on an
//! ordinary disk is taken only after the user has agreed to it.

use vstd::prelude::*;
use vstd::string::StringExecFns;
use crate::text::{substring, to_chars};

verus! {

/// The index behind what is left of `s` when the slashes and the segments
/// `.` at its end are taken off.
pub open spec fn stem_end(s: Seq<char>) -> int
    decreases s.len(),
{
    if s.len() > 0 && s.last() == '/' {
        stem_end(s.drop_last())
    } else if s.len() >= 2 && s.last() == '.' && s[s.len() - 2] == '/' {
        stem_end(s.take(s.len() - 2))
    } else {
        s.len() as int
    }
}

/// The index at which the last segment of `s` starts, `s` not ending in a
/// `/`.
pub open spec fn segment_start(s: Seq<char>) -> int
    decreases s.len(),
{
    if s.len() > 0 && s.last() != '/' {
        segment_start(s.drop_last())
    } else {
        s.len() as int
    }
}

/// The name under which a program was started, given the path it was
/// started by: the last segment of the path, the slashes and the segments
/// `.` at its end aside. There is none where that segment is empty, `.` or
/// `..`.
pub open spec fn program_name(arg0: Seq<char>) -> Option<Seq<char>> {
    let path = arg0.take(stem_end(arg0));
    let name = path.skip(segment_start(path));
    if name.len() == 0 || name == seq!['.'] || name == seq!['.', '.'] {
        None
    } else {
        Some(name)
    }
}

/// The name under which the program was started.
pub fn how_i_invoked(arg0: &str) -> (name: Option<String>)
    ensures
        name.deep_view() == program_name(arg0@),
{
    let v = to_chars(arg0);
    let mut end: usize = v.len();
    assert(v@.take(end as int) == v@);
    loop
        invariant
            end <= v.len(),
            stem_end(v@) == stem_end(v@.take(end as int)),
        ensures
            end <= v.len(),
            stem_end(v@) == end,
        decreases end,
    {
        let ghost cur = v@.take(end as int);
        if end > 0 && v[end - 1] == '/' {
            assert(cur.last() == v@[end - 1]);
            assert(cur.drop_last() == v@.take(end - 1));
            end -= 1;
        } else if end >= 2 && v[end - 1] == '.' && v[end - 2] == '/' {
            assert(cur.last() == v@[end - 1]);
            assert(cur[cur.len() - 2] == v@[end - 2]);
            assert(cur.take(cur.len() - 2) == v@.take(end - 2));
            end -= 2;
        } else {
            proof {
                if end > 0 {
                    assert(cur.last() == v@[end - 1]);
                }
                if end >= 2 {
                    assert(cur[cur.len() - 2] == v@[end - 2]);
                }
            }
            break ;
        }
    }
    let ghost path = v@.take(end as int);
    let mut start: usize = end;
    assert(path.take(start as int) == path);
    while start > 0 && v[start - 1] != '/'
        invariant
            start <= end <= v.len(),
            path == v@.take(end as int),
            segment_start(path) == segment_start(path.take(start as int)),
        decreases start,
    {
        assert(path.take(start as int).last() == v@[start - 1]);
        assert(path.take(start as int).drop_last() == path.take(start - 1));
        start -= 1;
    }
    proof {
        if start > 0 {
            assert(path.take(start as int).last() == v@[start - 1]);
        }
        assert(segment_start(path) == start);
        assert(path.skip(start as int) == v@.subrange(start as int, end as int));
    }
    let ghost name = v@.subrange(start as int, end as int);
    if end - start == 0 {
        return None;
    }
    if end - start == 1 && v[start] == '.' {
        assert(name =~= seq!['.']);
        return None;
    }
    if end - start == 2 && v[start] == '.' && v[start + 1] == '.' {
        assert(name =~= seq!['.', '.']);
        return None;
    }
    proof {
        if name == seq!['.'] {
            assert(name[0] == '.');
        }
        if name == seq!['.', '.'] {
            assert(name[0] == '.');
            assert(name[1] == '.');
        }
    }
    Some(substring(&v, start, end))
}

/// The volatile directory in which the program `program` keeps its
/// temporary files.
pub fn secure_tempdir(program: &str) -> (dir: String)
    ensures
        dir@ == "/dev/shm/"@ + program@ + ".XXXXXXXXXXXXX"@,
{
    let mut dir = String::from_str("/dev/shm/");
    dir.append(program);
    dir.append(".XXXXXXXXXXXXX");
    dir
}

/// Where a temporary file is made.
#[derive(Debug, PartialEq, Eq, Clone, Copy, Structural)]
pub enum TempStorage {
    /// In the volatile directory.
    Volatile,
    /// Nowhere yet: the user is to be asked whether an ordinary disk will
    /// do.
    AskConsent,
    /// In the system's ordinary temporary directory.
    Persistent,
    /// Nowhere: the user did not agree.
    Refused,
}

/// Decides where a temporary file is made. `volatile` says whether the
/// volatile directory can be had, `consent` what the user answered when
/// asked whether an ordinary disk will do, if the question was put.
pub fn create_temp_file(volatile: bool, consent: Option<bool>) -> (place: TempStorage)
    ensures
        place == (if volatile {
            TempStorage::Volatile
        } else {
            match consent {
                None => TempStorage::AskConsent,
                Some(true) => TempStorage::Persistent,
                Some(false) => TempStorage::Refused,
            }
        }),
{
    if volatile {
        TempStorage::Volatile
    } else {
        match consent {
            None => TempStorage::AskConsent,
            Some(yes) => if yes {
                TempStorage::Persistent
            } else {
                TempStorage::Refused
            },
        }
    }
}

} // verus!
