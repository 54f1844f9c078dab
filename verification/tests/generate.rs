use pass_store::{generate_from, generate_password, generate_with, get_alphabet};
use rand::SeedableRng;

#[test]
fn alphabet_without_symbols_is_letters_and_digits() {
    let chars: String = get_alphabet(true).into_iter().collect();
    assert_eq!(chars, "abcdefghijklmnopqrstuvwxyzABCDEFGHIJKLMNOPQRSTUVWXYZ0123456789");
}

#[test]
fn alphabet_with_symbols() {
    let chars: String = get_alphabet(false).into_iter().collect();
    assert_eq!(
        chars,
        "abcdefghijklmnopqrstuvwxyzABCDEFGHIJKLMNOPQRSTUVWXYZ0123456789!\\#\"$%&'()*+,-./:;<=>?@[\\\\]^_`{\u{c2}\u{a6}}~"
    );
    assert_eq!(get_alphabet(false).len(), 62 + 35);
}

#[test]
fn password_has_the_length_asked_for() {
    for length in [0usize, 1, 25, 200] {
        let password = generate_password(length, false).expect("the system has randomness");
        assert_eq!(password.chars().count(), length);
    }
}

#[test]
fn password_is_drawn_from_the_alphabet() {
    let plain = get_alphabet(true);
    let password = generate_password(500, true).expect("the system has randomness");
    assert!(password.chars().all(|c| plain.contains(&c)));
    let all = get_alphabet(false);
    let password = generate_password(500, false).expect("the system has randomness");
    assert!(password.chars().all(|c| all.contains(&c)));
}

#[test]
fn passwords_differ() {
    let a = generate_password(40, false).expect("the system has randomness");
    let b = generate_password(40, false).expect("the system has randomness");
    assert_ne!(a, b);
    let letters: std::collections::BTreeSet<char> = a.chars().chain(b.chars()).collect();
    assert!(letters.len() > 10);
}

#[test]
fn a_seeded_generator_gives_the_same_password() {
    let mut one = rand::rngs::StdRng::seed_from_u64(7);
    let mut other = rand::rngs::StdRng::seed_from_u64(7);
    let a = generate_with(&mut one, 30, false);
    let b = generate_with(&mut other, 30, false);
    assert_eq!(a, b);
    assert_eq!(a.chars().count(), 30);
    let all = get_alphabet(false);
    assert!(a.chars().all(|c| all.contains(&c)));
    let c = generate_with(&mut one, 30, false);
    assert_ne!(a, c);
}

#[test]
fn a_password_without_symbols_has_none() {
    let mut rng = rand::rngs::StdRng::seed_from_u64(11);
    let password = generate_with(&mut rng, 2000, true);
    assert!(password.chars().all(|c| c.is_ascii_alphanumeric()));
    let mut rng = rand::rngs::StdRng::seed_from_u64(11);
    let password = generate_with(&mut rng, 2000, false);
    assert!(password.chars().any(|c| !c.is_ascii_alphanumeric()));
}

#[test]
fn no_generator_gives_no_password() {
    assert_eq!(generate_from(None, 25, false), None);
    assert_eq!(generate_from(None, 0, true), None);
}

#[test]
fn a_generator_gives_a_password_of_any_length() {
    for length in [0usize, 1, 25] {
        let seed = rand::rngs::StdRng::seed_from_u64(3);
        let password = generate_from(Some(seed), length, true).expect("there is a generator");
        assert_eq!(password.chars().count(), length);
        assert!(password.chars().all(|c| c.is_ascii_alphanumeric()));
    }
}
