use vstd::prelude::*;
use vstd::string::StringExecFns;

use argon2::password_hash::rand_core::OsRng;
use argon2::password_hash::{PasswordHash, PasswordHasher, PasswordVerifier, SaltString};
use argon2::Argon2;
use crypto::digest::Digest;
use crypto::sha3::Sha3;

verus! {

/// Whether Argon2 accepts `password` against the PHC string `hash`.
pub uninterp spec fn argon2_accepts(password: Seq<char>, hash: Seq<char>) -> bool;

/// The lower-case hex text of the Keccak-256 digest of the UTF-8 bytes of `input`.
pub uninterp spec fn keccak256_hex(input: Seq<char>) -> Seq<char>;

#[verifier::external_type_specification]
#[verifier::external_body]
pub struct ExSaltString(SaltString);

#[verifier::external_type_specification]
#[verifier::external_body]
pub struct ExSystemTime(std::time::SystemTime);

/// Relies on argon2's `SaltString::generate` with `OsRng`: a fresh random salt.
#[verifier::external_body]
fn fresh_salt() -> (r: SaltString) {
    SaltString::generate(&mut OsRng)
}

/// Relies on argon2's `PasswordHasher::hash_password` of `Argon2::default()`: the PHC
/// string it returns verifies against the password, as the crate's own usage example
/// asserts.
#[verifier::external_body]
fn argon2_hash(password: &String, salt: &SaltString) -> (r: Result<String, String>)
    ensures
        r is Ok ==> argon2_accepts(password@, r->Ok_0@),
{
    match Argon2::default().hash_password(password.as_bytes(), salt) {
        Ok(hash) => Ok(hash.to_string()),
        Err(err) => Err(err.to_string()),
    }
}

/// Hashes `password` with a fresh salt; the result verifies against the password.
pub fn hash_password(password: &String) -> (r: Result<String, String>)
    ensures
        r is Ok ==> argon2_accepts(password@, r->Ok_0@),
{
    let salt = fresh_salt();
    argon2_hash(password, &salt)
}

/// Relies on argon2's `PasswordHash::new` and `PasswordVerifier::verify_password` of
/// `Argon2::default()`, which recomputes the hash with the parameters and salt that the
/// PHC string carries: the outcome depends on the two strings alone. A string that
/// does not parse is refused.
#[verifier::external_body]
pub(crate) fn password_matches(password: &String, hash: &String) -> (r: bool)
    ensures
        r == argon2_accepts(password@, hash@),
{
    match PasswordHash::new(hash.as_str()) {
        Ok(parsed) => Argon2::default().verify_password(password.as_bytes(), &parsed).is_ok(),
        Err(_) => false,
    }
}

/// Relies on rust-crypto's `Sha3::keccak256` with `Digest::input_str` and
/// `Digest::result_str`: the lower-case hex text of the digest of the input's bytes.
#[verifier::external_body]
fn keccak256_hex_of(input: &String) -> (r: String)
    ensures
        r@ == keccak256_hex(input@),
{
    let mut hasher = Sha3::keccak256();
    hasher.input_str(input.as_str());
    hasher.result_str()
}

/// Relies on std's `SystemTime::now`: the present time of the system clock.
#[verifier::external_body]
fn system_now() -> (r: std::time::SystemTime) {
    std::time::SystemTime::now()
}

/// Relies on std's `SystemTime::duration_since(UNIX_EPOCH)`: whole seconds since the
/// Unix epoch, or the error's text when `t` is before it.
#[verifier::external_body]
fn seconds_since_epoch(t: &std::time::SystemTime) -> (r: Result<u64, String>) {
    match t.duration_since(std::time::UNIX_EPOCH) {
        Ok(elapsed) => Ok(elapsed.as_secs()),
        Err(err) => Err(err.to_string()),
    }
}

/// The decimal digit `d`.
pub open spec fn digit_char(d: nat) -> char {
    if d == 0 {
        '0'
    } else if d == 1 {
        '1'
    } else if d == 2 {
        '2'
    } else if d == 3 {
        '3'
    } else if d == 4 {
        '4'
    } else if d == 5 {
        '5'
    } else if d == 6 {
        '6'
    } else if d == 7 {
        '7'
    } else if d == 8 {
        '8'
    } else {
        '9'
    }
}

/// The decimal text of `n`, without leading zeros.
pub open spec fn decimal(n: nat) -> Seq<char>
    decreases n,
{
    if n < 10 {
        seq![digit_char(n)]
    } else {
        decimal(n / 10).push(digit_char(n % 10))
    }
}

/// The text that a capability key or a session token is derived from: `seed`
/// followed by the decimal text of `seconds`.
pub open spec fn key_material(seed: Seq<char>, seconds: nat) -> Seq<char> {
    seed + decimal(seconds)
}

fn digit_str(d: u64) -> (r: &'static str)
    requires
        d < 10,
    ensures
        r@ == seq![digit_char(d as nat)],
{
    if d == 0 {
        proof { reveal_strlit("0"); }
        "0"
    } else if d == 1 {
        proof { reveal_strlit("1"); }
        "1"
    } else if d == 2 {
        proof { reveal_strlit("2"); }
        "2"
    } else if d == 3 {
        proof { reveal_strlit("3"); }
        "3"
    } else if d == 4 {
        proof { reveal_strlit("4"); }
        "4"
    } else if d == 5 {
        proof { reveal_strlit("5"); }
        "5"
    } else if d == 6 {
        proof { reveal_strlit("6"); }
        "6"
    } else if d == 7 {
        proof { reveal_strlit("7"); }
        "7"
    } else if d == 8 {
        proof { reveal_strlit("8"); }
        "8"
    } else {
        proof { reveal_strlit("9"); }
        "9"
    }
}

/// Appends the decimal text of `n` to `s`.
fn append_decimal(s: &mut String, n: u64)
    ensures
        final(s)@ == old(s)@ + decimal(n as nat),
    decreases n,
{
    if n >= 10 {
        append_decimal(s, n / 10);
    }
    s.append(digit_str(n % 10));
    proof {
        if n >= 10 {
            assert(old(s)@ + decimal((n / 10) as nat) + seq![digit_char((n % 10) as nat)] =~= old(s)@ + decimal(n as nat));
        } else {
            assert(old(s)@ + seq![digit_char(n as nat)] =~= old(s)@ + decimal(n as nat));
        }
    }
}

/// The key derived from `seed` at `seconds` after the Unix epoch: the Keccak-256 hex
/// digest of `seed` followed by the decimal text of `seconds`.
///
/// Such a key is not a secret drawn at random: anyone who knows the seed (a login) and
/// the second can compute it, and two derivations from one seed within one second give
/// the same key. Session tokens and staging keys of this store are derived this way, so
/// they are only as hard to guess as that pair; a store that needs unguessable
/// capabilities must draw them from a cryptographically secure random source instead.
pub fn derive_key(seed: &String, seconds: u64) -> (r: String)
    ensures
        r@ == keccak256_hex(key_material(seed@, seconds as nat)),
{
    let mut material = seed.clone();
    append_decimal(&mut material, seconds);
    keccak256_hex_of(&material)
}

/// A key derived from `seed` at the present second, or the clock's error text. The key is
/// predictable from the seed and the time; see `derive_key`.
pub fn fresh_key(seed: &String) -> (r: Result<String, String>)
    ensures
        r is Ok ==> exists|seconds: nat| r->Ok_0@ == keccak256_hex(#[trigger] key_material(seed@, seconds)),
{
    let now = system_now();
    match seconds_since_epoch(&now) {
        Ok(seconds) => {
            let key = derive_key(seed, seconds);
            assert(key@ == keccak256_hex(key_material(seed@, seconds as nat)));
            Ok(key)
        },
        Err(err) => Err(err),
    }
}

} // verus!
