//! Finding entries by words: the lines of a listing in which one of the
//! words occurs, whatever the case of its ASCII letters.

use vstd::prelude::*;
use vstd::string::StringExecFns;
use crate::error::{Error, ErrorModel};
use vstd::utf8::encode_utf8;
use crate::text::{from_chars, lines, remove_all, text_lines, to_chars, without};

verus! {

/// The searcher of the `aho-corasick` crate, which the library carries
/// without looking inside.
#[verifier::external_type_specification]
#[verifier::external_body]
pub struct ExAhoCorasick(aho_corasick::AhoCorasick);

/// What a searcher makes of the bytes of a line: whether it finds one of
/// its words among them, or nothing where it cannot search.
pub uninterp spec fn finder_finds(finder: aho_corasick::AhoCorasick, line: Seq<u8>) -> Option<bool>;

/// Whether a searcher can be had for these words, given as bytes. The
/// builder refuses words that are too many or too long for the numbers by
/// which it counts them and its states; what it takes depends on the words
/// alone.
pub uninterp spec fn finder_builds(words: Seq<Seq<u8>>) -> bool;

/// The byte of an ASCII capital as that of its small letter; any other byte
/// as itself.
pub open spec fn fold(b: u8) -> u8 {
    if 0x41 <= b <= 0x5a {
        (b + 0x20) as u8
    } else {
        b
    }
}

/// Whether `word` stands in `line` at index `at`, but for the case of ASCII
/// letters.
pub open spec fn occurs_at(word: Seq<u8>, line: Seq<u8>, at: int) -> bool {
    &&& 0 <= at
    &&& at + word.len() <= line.len()
    &&& forall|j: int| 0 <= j < word.len() ==> fold(#[trigger] line[at + j]) == fold(word[j])
}

/// Whether one of `words` stands somewhere in `line`, but for the case of
/// ASCII letters.
pub open spec fn occurs_any(words: Seq<Seq<u8>>, line: Seq<u8>) -> bool {
    exists|w: int, at: int| 0 <= w < words.len() && #[trigger] occurs_at(words[w], line, at)
}

/// The words as the bytes of their UTF-8 encoding.
pub open spec fn utf8_of(words: Seq<Seq<char>>) -> Seq<Seq<u8>> {
    words.map_values(|word: Seq<char>| encode_utf8(word))
}

/// Whether one of `words` occurs in `line`: the bytes of its UTF-8 encoding
/// stand somewhere among those of the line, ASCII letters of either case
/// taken for the same.
pub open spec fn matches_any(words: Seq<Seq<char>>, line: Seq<char>) -> bool {
    occurs_any(utf8_of(words), encode_utf8(line))
}

/// `AhoCorasick::builder`, `ascii_case_insensitive(true)` and `build`: a
/// searcher for the bytes of the given words, or nothing where the builder
/// refuses them, which it does or does not for the same words always. A
/// searcher that was built so searches any line, from any place in it, and
/// finds a match exactly where one of the words stands in the line, ASCII
/// letters of either case taken for the same.
#[verifier::external_body]
fn build_finder(words: &Vec<String>) -> (finder: Option<aho_corasick::AhoCorasick>)
    ensures
        finder is Some <==> finder_builds(utf8_of(words.deep_view())),
        finder matches Some(f) ==> forall|line: Seq<u8>| #[trigger]
            finder_finds(f, line) == Some(occurs_any(utf8_of(words.deep_view()), line)),
{
    aho_corasick::AhoCorasick::builder().ascii_case_insensitive(true).build(words).ok()
}

/// `AhoCorasick::try_find` on the bytes of the line: whether the searcher
/// finds a match, or nothing where the search fails, as it does where the
/// searcher was built for searches of another kind.
#[verifier::external_body]
fn finds(finder: &aho_corasick::AhoCorasick, line: &str) -> (found: Option<bool>)
    ensures
        found == finder_finds(*finder, encode_utf8(line@)),
{
    match finder.try_find(line) {
        Ok(found) => Some(found.is_some()),
        Err(_) => None,
    }
}

/// Whether the searcher finds a match in the line.
pub open spec fn found_by(finder: aho_corasick::AhoCorasick, line: Seq<char>) -> bool {
    finder_finds(finder, encode_utf8(line)) == Some(true)
}

/// The lines in which the searcher finds a match, in their order.
pub fn filter_with(finder: &aho_corasick::AhoCorasick, lines: &Vec<String>) -> (found: Vec<String>)
    ensures
        found.deep_view() == lines.deep_view().filter(|line: Seq<char>| found_by(*finder, line)),
{
    let ghost keep = |line: Seq<char>| found_by(*finder, line);
    let mut found: Vec<String> = Vec::new();
    let mut i: usize = 0;
    proof {
        reveal(Seq::filter);
        assert(lines.deep_view().take(0) == Seq::<Seq<char>>::empty());
    }
    while i < lines.len()
        invariant
            i <= lines.len(),
            keep == |line: Seq<char>| found_by(*finder, line),
            found.deep_view() == lines.deep_view().take(i as int).filter(keep),
        decreases lines.len() - i,
    {
        proof {
            reveal(Seq::filter);
            assert(lines.deep_view().take(i + 1).drop_last() == lines.deep_view().take(i as int));
            assert(lines.deep_view().take(i + 1).last() == lines@[i as int]@);
        }
        let hit = match finds(finder, lines[i].as_str()) {
            Some(found) => found,
            None => false,
        };
        if hit {
            let ghost before = found.deep_view();
            found.push(lines[i].clone());
            assert(found.deep_view() == before.push(lines@[i as int]@));
        }
        i += 1;
    }
    assert(lines.deep_view().take(lines.len() as int) == lines.deep_view());
    found
}

/// The lines in which one of `words` occurs, whatever the case of its ASCII
/// letters; nothing where no searcher can be built for the words, which
/// depends on the words alone and not on the lines.
pub fn filter_matches(lines: &Vec<String>, words: &Vec<String>) -> (found: Option<Vec<String>>)
    ensures
        found is Some <==> finder_builds(utf8_of(words.deep_view())),
        found matches Some(f) ==> f.deep_view() == lines.deep_view().filter(
            |line: Seq<char>| matches_any(words.deep_view(), line),
        ),
{
    match build_finder(words) {
        Some(finder) => {
            let found = filter_with(&finder, lines);
            proof {
                let by_finder = |line: Seq<char>| found_by(finder, line);
                let by_words = |line: Seq<char>| matches_any(words.deep_view(), line);
                assert forall|line: Seq<char>| #[trigger] by_finder(line) == by_words(line) by {
                    assert(finder_finds(finder, encode_utf8(line)) == Some(
                        occurs_any(utf8_of(words.deep_view()), encode_utf8(line)),
                    ));
                }
                assert(by_finder =~= by_words);
            }
            Some(found)
        },
        None => None,
    }
}

/// A line of a listing as it is shown: without the ending of the durable
/// files.
pub open spec fn shown(line: Seq<char>) -> Seq<char> {
    without(line, seq!['.', 'g', 'p', 'g'])
}

/// The lines of a listing as they are shown: all but the first, which names
/// the directory, each without the ending of the durable files.
pub open spec fn listing_of(output: Seq<char>) -> Seq<Seq<char>> {
    if text_lines(output).len() == 0 {
        Seq::empty()
    } else {
        text_lines(output).drop_first().map_values(|line: Seq<char>| shown(line))
    }
}

/// Takes the ending of the durable files out of a line.
pub fn show_line(line: &str) -> (out: String)
    ensures
        out@ == shown(line@),
{
    let ending: Vec<char> = vec!['.', 'g', 'p', 'g'];
    assert(ending@ == seq!['.', 'g', 'p', 'g']);
    let v = to_chars(line);
    from_chars(&remove_all(&v, &ending))
}

/// The lines of a listing that are shown. `output` is what the listing
/// program printed.
pub fn list_lines(output: &str) -> (shown_lines: Vec<String>)
    ensures
        shown_lines.deep_view() == listing_of(output@),
{
    let all = lines(output);
    let mut shown_lines: Vec<String> = Vec::new();
    if all.len() == 0 {
        return shown_lines;
    }
    let ghost rest = all.deep_view().drop_first();
    let mut i: usize = 1;
    while i < all.len()
        invariant
            1 <= i <= all.len(),
            rest == all.deep_view().drop_first(),
            shown_lines.deep_view() == rest.take(i - 1).map_values(|line: Seq<char>| shown(line)),
        decreases all.len() - i,
    {
        let ghost before = shown_lines.deep_view();
        let line = show_line(all[i].as_str());
        shown_lines.push(line);
        assert(shown_lines.deep_view() == before.push(shown(all@[i as int]@)));
        assert(rest.take(i as int).map_values(|line: Seq<char>| shown(line)) == before.push(
            shown(all@[i as int]@),
        ));
        i += 1;
    }
    assert(rest.take(rest.len() as int) == rest);
    shown_lines
}

/// The lines of a listing in which one of `words` occurs, as they are
/// shown: the first line, which names the directory, is left out, and the
/// lines that are kept lose the ending of the durable files after they were
/// searched.
pub open spec fn matches_of(output: Seq<char>, words: Seq<Seq<char>>) -> Seq<Seq<char>> {
    if text_lines(output).len() == 0 {
        Seq::empty()
    } else {
        text_lines(output).drop_first().filter(|line: Seq<char>| matches_any(words, line)).map_values(
            |line: Seq<char>| shown(line),
        )
    }
}

/// The lines of what the listing program printed that match one of
/// `pass_names`; nothing where no searcher can be built for the names,
/// whatever was printed.
pub fn display_matches(output: &str, pass_names: &Vec<String>) -> (found: Option<Vec<String>>)
    ensures
        found is Some <==> finder_builds(utf8_of(pass_names.deep_view())),
        found matches Some(f) ==> f.deep_view() == matches_of(output@, pass_names.deep_view()),
{
    let all = lines(output);
    let mut rest: Vec<String> = Vec::new();
    let mut i: usize = 1;
    while i < all.len()
        invariant
            1 <= i,
            all.len() > 0 ==> i <= all.len(),
            all.len() > 0 ==> rest.deep_view() == all.deep_view().drop_first().take(i - 1),
            all.len() == 0 ==> rest.deep_view() == Seq::<Seq<char>>::empty(),
        decreases all.len() - i,
    {
        let ghost before = rest.deep_view();
        rest.push(all[i].clone());
        assert(rest.deep_view() == before.push(all@[i as int]@));
        assert(all.deep_view().drop_first().take(i as int) == before.push(all@[i as int]@));
        i += 1;
    }
    proof {
        if all.len() > 0 {
            let tail = all.deep_view().drop_first();
            assert(tail.take(tail.len() as int) == tail);
        }
    }
    match filter_matches(&rest, pass_names) {
        None => None,
        Some(kept) => {
            let mut found: Vec<String> = Vec::new();
            let mut k: usize = 0;
            while k < kept.len()
                invariant
                    k <= kept.len(),
                    found.deep_view() == kept.deep_view().take(k as int).map_values(
                        |line: Seq<char>| shown(line),
                    ),
                decreases kept.len() - k,
            {
                let ghost before = found.deep_view();
                found.push(show_line(kept[k].as_str()));
                assert(found.deep_view() == before.push(shown(kept@[k as int]@)));
                assert(kept.deep_view().take(k + 1).map_values(|line: Seq<char>| shown(line))
                    == before.push(shown(kept@[k as int]@)));
                k += 1;
            }
            assert(kept.deep_view().take(kept.len() as int) == kept.deep_view());
            Some(found)
        },
    }
}

/// The program that lists the store at the given attempt, with its
/// arguments: first `eza`, then `tree`. When both have failed, the listing
/// fails, and the error names the programs that were tried.
pub fn run_tree_cmd(attempt: usize, path: &str) -> (command: Result<Vec<String>, Error>)
    ensures
        match command {
            Ok(argv) => {
                &&& attempt < 2
                &&& attempt == 0 ==> argv.deep_view() == seq![
                    "eza"@,
                    path@,
                    "--tree"@,
                    "--color=always"@,
                    "--dereference"@,
                ]
                &&& attempt == 1 ==> argv.deep_view() == seq![
                    "tree"@,
                    path@,
                    "-C"@,
                    "--noreport"@,
                    "--prune"@,
                ]
            },
            Err(error) => {
                &&& attempt >= 2
                &&& error@ == ErrorModel::TreeCommandNotFound {
                    supported_commands: seq!["eza"@, "tree"@],
                }
            },
        },
{
    let mut argv: Vec<String> = Vec::new();
    if attempt == 0 {
        argv.push(String::from_str("eza"));
        argv.push(String::from_str(path));
        argv.push(String::from_str("--tree"));
        argv.push(String::from_str("--color=always"));
        argv.push(String::from_str("--dereference"));
        assert(argv.deep_view() =~= seq![
            "eza"@,
            path@,
            "--tree"@,
            "--color=always"@,
            "--dereference"@,
        ]);
        Ok(argv)
    } else if attempt == 1 {
        argv.push(String::from_str("tree"));
        argv.push(String::from_str(path));
        argv.push(String::from_str("-C"));
        argv.push(String::from_str("--noreport"));
        argv.push(String::from_str("--prune"));
        assert(argv.deep_view() =~= seq!["tree"@, path@, "-C"@, "--noreport"@, "--prune"@]);
        Ok(argv)
    } else {
        argv.push(String::from_str("eza"));
        argv.push(String::from_str("tree"));
        assert(argv.deep_view() =~= seq!["eza"@, "tree"@]);
        Err(Error::TreeCommandNotFound { supported_commands: argv })
    }
}

} // verus!
