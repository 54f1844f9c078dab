//! What the user typed, read as an answer.

use vstd::prelude::*;
use vstd::string::StringExecFns;
use crate::error::{Error, ErrorModel};
use crate::text::{is_word, is_word_at, to_chars, trim_bounds, trimmed};

verus! {

/// What a typed line answers to a question of yes or no. White space around
/// the answer and the case of its letters do not count. `y` and `yes` mean
/// yes, `n` and `no` mean no, nothing at all means `safer`, the answer that
/// the question proposes; anything else is no answer.
pub open spec fn answer_of(safer: bool, line: Seq<char>) -> Option<bool> {
    let word = trimmed(line);
    if is_word(word, seq!['y']) || is_word(word, seq!['y', 'e', 's']) {
        Some(true)
    } else if is_word(word, seq!['n']) || is_word(word, seq!['n', 'o']) {
        Some(false)
    } else if word.len() == 0 {
        Some(safer)
    } else {
        None
    }
}

/// Reads the answer to a question of yes or no from the line that the user
/// typed.
pub fn yesno(safer: bool, answer: &str) -> (decision: Option<bool>)
    ensures
        decision == answer_of(safer, answer@),
{
    let v = to_chars(answer);
    let (from, to) = trim_bounds(&v);
    proof {
        reveal_strlit("y");
        reveal_strlit("yes");
        reveal_strlit("n");
        reveal_strlit("no");
        assert("y"@ == seq!['y']);
        assert("yes"@ == seq!['y', 'e', 's']);
        assert("n"@ == seq!['n']);
        assert("no"@ == seq!['n', 'o']);
    }
    if is_word_at(&v, from, to, "y") || is_word_at(&v, from, to, "yes") {
        Some(true)
    } else if is_word_at(&v, from, to, "n") || is_word_at(&v, from, to, "no") {
        Some(false)
    } else if from == to {
        Some(safer)
    } else {
        None
    }
}

/// Accepts a password that was typed twice the same.
pub fn check_retyped(password: String, retyped: &str) -> (result: Result<String, Error>)
    ensures
        match result {
            Ok(accepted) => password@ == retyped@ && accepted@ == password@,
            Err(error) => password@ != retyped@ && error@ == ErrorModel::PasswordsDontMatch,
        },
{
    let again = String::from_str(retyped);
    if password == again {
        Ok(password)
    } else {
        Err(Error::PasswordsDontMatch)
    }
}

} // verus!
