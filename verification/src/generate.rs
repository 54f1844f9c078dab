//! New passwords: characters drawn at random from a fixed alphabet.

use rand::distributions::Distribution;
use rand::SeedableRng;
use vstd::prelude::*;
use crate::text::to_chars;

verus! {

/// The generator of the `rand` crate, which the library carries without
/// looking inside.
#[verifier::external_type_specification]
#[verifier::external_body]
pub struct ExStdRng(rand::rngs::StdRng);

/// The characters that a password is drawn from: the letters, the digits
/// and, unless `no_symbols` is set, the symbols. A character that stands
/// more than once is drawn more often.
pub open spec fn alphabet(no_symbols: bool) -> Seq<char> {
    let plain = "abcdefghijklmnopqrstuvwxyzABCDEFGHIJKLMNOPQRSTUVWXYZ"@ + "0123456789"@;
    if no_symbols {
        plain
    } else {
        plain + "!\\#\"$%&'()*+,-./:;<=>?@[\\\\]^_`{\u{c2}\u{a6}}~"@
    }
}

/// The alphabet as a vector.
pub fn get_alphabet(no_symbols: bool) -> (chars: Vec<char>)
    ensures
        chars@ == alphabet(no_symbols),
        chars.len() >= 62,
{
    let mut chars = to_chars("abcdefghijklmnopqrstuvwxyzABCDEFGHIJKLMNOPQRSTUVWXYZ");
    let mut digits = to_chars("0123456789");
    chars.append(&mut digits);
    if !no_symbols {
        let mut symbols = to_chars("!\\#\"$%&'()*+,-./:;<=>?@[\\\\]^_`{\u{c2}\u{a6}}~");
        chars.append(&mut symbols);
    }
    proof {
        reveal_strlit("abcdefghijklmnopqrstuvwxyzABCDEFGHIJKLMNOPQRSTUVWXYZ");
        reveal_strlit("0123456789");
    }
    chars
}

/// `StdRng::from_rng` on `OsRng`: a generator seeded by the operating
/// system, or nothing where the system gives no seed. Nothing is claimed of
/// the generator.
#[verifier::external_body]
fn seeded_rng() -> (rng: Option<rand::rngs::StdRng>) {
    rand::rngs::StdRng::from_rng(rand::rngs::OsRng).ok()
}

/// `Slice::new` on the alphabet and one `sample` of it: the draw is one of
/// the alphabet's characters. Which one is up to the generator.
#[verifier::external_body]
fn draw(rng: &mut rand::rngs::StdRng, chars: &Vec<char>) -> (c: char)
    requires
        chars.len() > 0,
    ensures
        chars@.contains(c),
{
    *rand::distributions::Slice::new(chars.as_slice()).unwrap().sample(rng)
}

/// A password of `length` characters, each drawn from the alphabet with
/// `rng`.
pub fn generate_with(rng: &mut rand::rngs::StdRng, length: usize, no_symbols: bool) -> (password:
    String)
    ensures
        password@.len() == length,
        forall|i: int| 0 <= i < length ==> alphabet(no_symbols).contains(#[trigger] password@[i]),
{
    let chars = get_alphabet(no_symbols);
    let mut password = String::new();
    let mut n: usize = 0;
    while n < length
        invariant
            n <= length,
            chars@ == alphabet(no_symbols),
            chars.len() > 0,
            password@.len() == n,
            forall|i: int| 0 <= i < n ==> alphabet(no_symbols).contains(#[trigger] password@[i]),
        decreases length - n,
    {
        let c = draw(rng, &chars);
        password.push(c);
        n += 1;
    }
    password
}

/// A password of `length` characters drawn with the generator `seed`, or
/// nothing where there is no generator: a password is made of whatever
/// generator is given, and of none only.
pub fn generate_from(
    seed: Option<rand::rngs::StdRng>,
    length: usize,
    no_symbols: bool,
) -> (password: Option<String>)
    ensures
        password is Some <==> seed is Some,
        password matches Some(p) ==> {
            &&& p@.len() == length
            &&& forall|i: int| 0 <= i < length ==> alphabet(no_symbols).contains(#[trigger] p@[i])
        },
{
    match seed {
        Some(rng) => {
            let mut rng = rng;
            Some(generate_with(&mut rng, length, no_symbols))
        },
        None => None,
    }
}

/// A new password of `length` characters, or nothing where the operating
/// system gives no randomness to start from.
pub fn generate_password(length: usize, no_symbols: bool) -> (password: Option<String>)
    ensures
        password matches Some(p) ==> {
            &&& p@.len() == length
            &&& forall|i: int| 0 <= i < length ==> alphabet(no_symbols).contains(#[trigger] p@[i])
        },
{
    generate_from(seeded_rng(), length, no_symbols)
}

} // verus!
