//! Who an entry is encrypted to. Every directory of the store may hold a
//! marker that lists recipients, one to a line. The marker nearest to an
//! entry governs it alone: nothing is merged from the markers further up.

use vstd::prelude::*;
use crate::error::{Error, ErrorModel};
use crate::text::{lines, text_lines};

verus! {

/// The recipients that a marker's text names: its lines that are not empty,
/// in the order of the file.
pub open spec fn identifiers(text: Seq<char>) -> Seq<Seq<char>> {
    text_lines(text).filter(|line: Seq<char>| line.len() > 0)
}

/// The text of the first marker that exists, where `markers` holds what was
/// found at each place from the entry's directory up to the root.
pub open spec fn governing(markers: Seq<Option<Seq<char>>>) -> Option<Seq<char>>
    decreases markers.len(),
{
    if markers.len() == 0 {
        None
    } else if markers[0] is Some {
        markers[0]
    } else {
        governing(markers.drop_first())
    }
}

/// A marker governs if no marker stands nearer to the entry, whatever stands
/// further up.
pub proof fn lemma_nearest_marker_governs(markers: Seq<Option<Seq<char>>>, i: int)
    requires
        0 <= i < markers.len(),
        markers[i] is Some,
        forall|j: int| 0 <= j < i ==> markers[j] is None,
    ensures
        governing(markers) == markers[i],
    decreases i,
{
    if i > 0 {
        let rest = markers.drop_first();
        assert(rest[i - 1] == markers[i]);
        assert forall|j: int| 0 <= j < i - 1 implies rest[j] is None by {
            assert(rest[j] == markers[j + 1]);
        }
        lemma_nearest_marker_governs(rest, i - 1);
    }
}

/// Nothing governs exactly where no marker exists at all.
pub proof fn lemma_governing_none(markers: Seq<Option<Seq<char>>>)
    ensures
        governing(markers) is None <==> forall|j: int|
            0 <= j < markers.len() ==> markers[j] is None,
    decreases markers.len(),
{
    if markers.len() > 0 {
        let rest = markers.drop_first();
        lemma_governing_none(rest);
        if markers[0] is None {
            if governing(rest) is None {
                assert forall|j: int| 0 <= j < markers.len() implies markers[j] is None by {
                    if j > 0 {
                        assert(rest[j - 1] == markers[j]);
                    }
                }
            } else {
                let j = choose|j: int| 0 <= j < rest.len() && !(rest[j] is None);
                assert(markers[j + 1] == rest[j]);
            }
        }
    }
}

/// Reads the recipients out of a marker's text.
pub fn parse_recipients(text: &str) -> (ids: Vec<String>)
    ensures
        ids.deep_view() == identifiers(text@),
{
    let all = lines(text);
    let ghost keep = |line: Seq<char>| line.len() > 0;
    let mut ids: Vec<String> = Vec::new();
    let mut i: usize = 0;
    proof {
        reveal(Seq::filter);
        assert(all.deep_view().take(0) == Seq::<Seq<char>>::empty());
    }
    while i < all.len()
        invariant
            i <= all.len(),
            keep == |line: Seq<char>| line.len() > 0,
            ids.deep_view() == all.deep_view().take(i as int).filter(keep),
        decreases all.len() - i,
    {
        let ghost before = all.deep_view().take(i as int);
        let ghost after = all.deep_view().take(i + 1);
        proof {
            reveal(Seq::filter);
            assert(after.drop_last() == before);
            assert(after.last() == all@[i as int]@);
        }
        if !all[i].as_str().is_empty() {
            let ghost old_ids = ids.deep_view();
            ids.push(all[i].clone());
            assert(ids.deep_view() == old_ids.push(all@[i as int]@));
        }
        i += 1;
    }
    assert(all.deep_view().take(all.len() as int) == all.deep_view());
    ids
}

/// The recipients of an entry, given what was found at each of its marker
/// places, nearest first: those that the first existing marker names. Where
/// no marker exists up to the root, the store was never set up.
pub fn get_recipients(markers: &Vec<Option<String>>) -> (result: Result<Vec<String>, Error>)
    ensures
        match governing(markers.deep_view()) {
            Some(text) => result is Ok && result->Ok_0.deep_view() == identifiers(text),
            None => result is Err && result->Err_0@ == ErrorModel::PasswordStoreUninitialized,
        },
{
    let mut i: usize = 0;
    assert(markers.deep_view().skip(0) == markers.deep_view());
    while i < markers.len()
        invariant
            i <= markers.len(),
            governing(markers.deep_view()) == governing(markers.deep_view().skip(i as int)),
        decreases markers.len() - i,
    {
        let ghost rest = markers.deep_view().skip(i as int);
        assert(rest[0] == markers@[i as int].deep_view());
        assert(rest.drop_first() == markers.deep_view().skip(i + 1));
        match &markers[i] {
            Some(text) => {
                return Ok(parse_recipients(text.as_str()));
            },
            None => {},
        }
        i += 1;
    }
    assert(markers.deep_view().skip(markers.len() as int).len() == 0);
    Err(Error::PasswordStoreUninitialized)
}

} // verus!
