use argon2::{PasswordHasher, PasswordVerifier};
use vstd::prelude::*;
use crate::text::push_char;

verus! {

/// A password hash could not be made, or a stored hash could not be read.
#[derive(Debug, Clone, Copy, PartialEq, Eq, Structural)]
pub struct HashError;

#[verifier::external_type_specification]
#[verifier::external_body]
pub struct ExPasswordHashError(argon2::password_hash::Error);

/// Length of an issued session token.
pub const SESSION_LEN: usize = 128;

/// Whether Argon2 accepts `password` against the PHC string `hash`: `Some(true)`
/// on a match; `Some(false)` on a mismatch, which includes a hash that parses but
/// holds no salt or no output; `None` where `hash` does not parse as a PHC string
/// or its algorithm, version or parameters cannot be used.
pub uninterp spec fn argon2_verdict(password: Seq<char>, hash: Seq<char>) -> Option<bool>;

/// Relies on argon2's `PasswordHasher::hash_password` with a fresh salt from the
/// operating system. The salt is random; what holds of every outcome is that the
/// PHC string it returns verifies against the same password.
#[verifier::external_body]
fn argon2_hash(password: &str) -> (r: Result<String, argon2::password_hash::Error>)
    ensures
        r matches Ok(h) ==> argon2_verdict(password@, h@) == Some(true),
{
    let salt = argon2::password_hash::SaltString::generate(&mut rand_core::OsRng);
    argon2::Argon2::default().hash_password(password.as_bytes(), &salt).map(|h| h.to_string())
}

/// Relies on `PasswordHash::new` and argon2's `PasswordVerifier::verify_password`:
/// `Ok(())` is a match, `Error::Password` a mismatch, any other error a hash that
/// cannot be used. The outcome depends on the two strings alone.
#[verifier::external_body]
fn argon2_verify(password: &str, password_hash: &str) -> (r: Result<bool, argon2::password_hash::Error>)
    ensures
        r is Ok <==> argon2_verdict(password@, password_hash@) is Some,
        r matches Ok(b) ==> argon2_verdict(password@, password_hash@) == Some(b),
{
    match argon2::password_hash::PasswordHash::new(password_hash) {
        Ok(h) => match argon2::Argon2::default().verify_password(password.as_bytes(), &h) {
            Ok(()) => Ok(true),
            Err(argon2::password_hash::Error::Password) => Ok(false),
            Err(e) => Err(e),
        },
        Err(e) => Err(e),
    }
}

/// Relies on `rand::random_range`, which returns a value of the range and
/// panics on an empty one.
#[verifier::external_body]
fn random_below(n: usize) -> (r: usize)
    requires
        n > 0,
    ensures
        r < n,
{
    rand::random_range(0..n)
}

/// Hashes a password with Argon2 and a random salt, as a PHC string.
pub fn hash(password: &str) -> (r: Result<String, HashError>)
    ensures
        r matches Ok(h) ==> argon2_verdict(password@, h@) == Some(true),
{
    match argon2_hash(password) {
        Ok(h) => Ok(h),
        Err(_) => Err(HashError),
    }
}

/// Checks a password against a stored Argon2 hash.
pub fn verify(password: &str, password_hash: &str) -> (r: Result<bool, HashError>)
    ensures
        r is Ok <==> argon2_verdict(password@, password_hash@) is Some,
        r matches Ok(b) ==> argon2_verdict(password@, password_hash@) == Some(b),
{
    match argon2_verify(password, password_hash) {
        Ok(b) => Ok(b),
        Err(_) => Err(HashError),
    }
}

/// The alphabet of session tokens: ASCII letters and digits.
pub open spec fn is_session_char(c: char) -> bool {
    ('a' <= c && c <= 'z') || ('A' <= c && c <= 'Z') || ('0' <= c && c <= '9')
}

/// Size of the session token alphabet.
pub const ALPHABET_LEN: usize = 62;

/// The code point of the `i`-th character of the alphabet: `a`..`z`, then `A`..`Z`, then `0`..`9`.
pub open spec fn alphabet_code(i: int) -> int {
    if i < 26 {
        97 + i
    } else if i < 52 {
        65 + (i - 26)
    } else {
        48 + (i - 52)
    }
}

/// The `i`-th character of the alphabet.
pub open spec fn alphabet_char(i: int) -> char {
    (alphabet_code(i) as u8) as char
}

/// The alphabet holds 62 distinct letters and digits, so a uniform index gives a uniform character.
pub proof fn lemma_alphabet_distinct(i: int, j: int)
    requires
        0 <= i < ALPHABET_LEN,
        0 <= j < ALPHABET_LEN,
    ensures
        is_session_char(alphabet_char(i)),
        alphabet_char(i) as u32 == alphabet_code(i),
        i != j ==> alphabet_char(i) != alphabet_char(j),
{
    assert((alphabet_code(i) as u8) as char as u32 == alphabet_code(i));
    assert((alphabet_code(j) as u8) as char as u32 == alphabet_code(j));
}

/// The `i`-th character of the 62-character alphabet: lower case, upper case, digits.
pub fn session_char(i: usize) -> (r: char)
    requires
        i < ALPHABET_LEN,
    ensures
        r == alphabet_char(i as int),
        is_session_char(r),
        i < 26 ==> r as u32 == 97 + i,
        26 <= i < 52 ==> r as u32 == 65 + (i - 26),
        52 <= i ==> r as u32 == 48 + (i - 52),
{
    proof {
        lemma_alphabet_distinct(i as int, i as int);
    }
    if i < 26 {
        ((97 + i) as u8) as char
    } else if i < 52 {
        ((65 + (i - 26)) as u8) as char
    } else {
        ((48 + (i - 52)) as u8) as char
    }
}

/// The token spelled by a sequence of alphabet indices: one character per index.
pub fn session_from_draws(draws: &Vec<usize>) -> (r: String)
    requires
        forall|k: int| 0 <= k < draws@.len() ==> #[trigger] draws@[k] < ALPHABET_LEN,
    ensures
        r@.len() == draws@.len(),
        forall|k: int| 0 <= k < draws@.len() ==> #[trigger] r@[k] == alphabet_char(draws@[k] as int),
{
    let mut s = String::new();
    let mut n: usize = 0;
    while n < draws.len()
        invariant
            n <= draws@.len(),
            s@.len() == n,
            forall|k: int| 0 <= k < draws@.len() ==> #[trigger] draws@[k] < ALPHABET_LEN,
            forall|k: int| 0 <= k < n ==> #[trigger] s@[k] == alphabet_char(draws@[k] as int),
        decreases draws@.len() - n,
    {
        let c = session_char(draws[n]);
        push_char(&mut s, c);
        n = n + 1;
    }
    s
}

/// A fresh session token: 128 characters, each the alphabet character of an
/// index drawn uniformly below 62.
pub fn random_session() -> (r: String)
    ensures
        r@.len() == SESSION_LEN,
        exists|draws: Seq<usize>|
            #![trigger draws.len()]
            draws.len() == SESSION_LEN && (forall|k: int| 0 <= k < SESSION_LEN ==> #[trigger] draws[k] < ALPHABET_LEN)
                && (forall|k: int| 0 <= k < SESSION_LEN ==> #[trigger] r@[k] == alphabet_char(draws[k] as int)),
        forall|k: int| 0 <= k < r@.len() ==> is_session_char(#[trigger] r@[k]),
{
    let mut draws: Vec<usize> = Vec::new();
    let mut n: usize = 0;
    while n < SESSION_LEN
        invariant
            n <= SESSION_LEN,
            draws@.len() == n,
            forall|k: int| 0 <= k < n ==> #[trigger] draws@[k] < ALPHABET_LEN,
        decreases SESSION_LEN - n,
    {
        draws.push(random_below(ALPHABET_LEN));
        n = n + 1;
    }
    let s = session_from_draws(&draws);
    proof {
        assert forall|k: int| 0 <= k < s@.len() implies is_session_char(#[trigger] s@[k]) by {
            lemma_alphabet_distinct(draws@[k] as int, draws@[k] as int);
        }
        assert(draws@.len() == SESSION_LEN);
    }
    s
}

} // verus!
