//! The plaintext of an entry as text: its first line is the password, the
//! lines after it are whatever the user keeps with it.

use vstd::prelude::*;
use vstd::string::StringExecFns;
use crate::error::{Error, ErrorModel};
use crate::text::{closed, lines, text_lines};

verus! {

/// What follows the first line of a text: its other lines, each closed by a
/// line feed. Nothing, where the text has one line or none.
pub open spec fn tail_of(text: Seq<char>) -> Seq<char> {
    if text_lines(text).len() == 0 {
        Seq::empty()
    } else {
        closed(text_lines(text).drop_first())
    }
}

/// The text without its first line.
pub fn remove_first_line(old_content: &str) -> (tail: String)
    ensures
        tail@ == tail_of(old_content@),
{
    let all = lines(old_content);
    let mut tail = String::new();
    if all.len() == 0 {
        return tail;
    }
    let ghost rest = all.deep_view().drop_first();
    let mut i: usize = 1;
    assert(rest.take(0) == Seq::<Seq<char>>::empty());
    while i < all.len()
        invariant
            1 <= i <= all.len(),
            rest == all.deep_view().drop_first(),
            tail@ == closed(rest.take(i - 1)),
        decreases all.len() - i,
    {
        proof {
            let now = rest.take(i as int);
            assert(now.drop_last() == rest.take(i - 1));
            assert(now.last() == all@[i as int]@);
            reveal_strlit("\n");
            assert("\n"@ == seq!['\n']);
        }
        tail.append(all[i].as_str());
        tail.append("\n");
        i += 1;
    }
    assert(rest.take(rest.len() as int) == rest);
    tail
}

/// A text whose first line is `password` and whose other lines are those of
/// `old_content`.
pub fn replace_first_line(password: &str, old_content: &str) -> (content: String)
    ensures
        content@ == password@ + seq!['\n'] + tail_of(old_content@),
{
    let tail = remove_first_line(old_content);
    let mut content = String::from_str(password);
    content.append("\n");
    content.append(tail.as_str());
    proof {
        reveal_strlit("\n");
        assert("\n"@ == seq!['\n']);
    }
    content
}

/// The line of `content` with the number `line_number`, counted from 1.
pub fn get_line(content: &str, line_number: usize) -> (line: Result<String, Error>)
    ensures
        match line {
            Ok(line) => 1 <= line_number <= text_lines(content@).len() && line@ == text_lines(
                content@,
            )[line_number - 1],
            Err(error) => !(1 <= line_number <= text_lines(content@).len()) && error@
                == ErrorModel::NoPasswordAtLine { line_number },
        },
{
    let all = lines(content);
    if line_number == 0 || line_number > all.len() {
        return Err(Error::NoPasswordAtLine { line_number });
    }
    assert(all.deep_view()[line_number - 1] == all@[line_number - 1]@);
    Ok(all[line_number - 1].clone())
}

} // verus!
