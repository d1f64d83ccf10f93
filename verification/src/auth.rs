//! Password hashing and the checks that accept a login or a session.

use vstd::prelude::*;
use vstd::string::*;

use sha2::Digest;

use crate::error::{is_protocol_error, AppError};

verus! {

/// The SHA-256 digest of `data`.
pub uninterp spec fn spec_sha256(data: Seq<u8>) -> Seq<u8>;

/// `sha2::Sha256::digest`: the SHA-256 digest of `data`, which is 32 bytes
/// long whatever the input.
#[verifier::external_body]
fn sha256(data: &[u8]) -> (digest: Vec<u8>)
    ensures
        digest@ == spec_sha256(data@),
        digest@.len() == 32,
{
    sha2::Sha256::digest(data).to_vec()
}

/// The lower-case hexadecimal digit of `n`, for `n < 16`.
pub open spec fn hex_digit(n: u8) -> char {
    if n < 10 {
        (('0' as u8) + n) as char
    } else {
        (('a' as u8) + n - 10) as char
    }
}

/// Lower-case hexadecimal text of `data`: two digits per byte, high nibble first.
pub open spec fn spec_hex(data: Seq<u8>) -> Seq<char>
    decreases data.len(),
{
    if data.len() == 0 {
        Seq::empty()
    } else {
        spec_hex(data.drop_last()) + seq![hex_digit(data.last() / 16), hex_digit(data.last() % 16)]
    }
}

/// `hex::encode`: the lower-case hexadecimal text of `data`, two digits per
/// byte, high nibble first.
#[verifier::external_body]
fn hex_encode(data: &[u8]) -> (text: String)
    ensures
        text@ == spec_hex(data@),
{
    hex::encode(data)
}

/// The stored form of a password: the hexadecimal SHA-256 digest of its UTF-8
/// bytes.
pub open spec fn spec_password_hash(password: Seq<char>) -> Seq<char> {
    spec_hex(spec_sha256(vstd::utf8::encode_utf8(password)))
}

/// Hashes a password for storage.
pub fn hash_password(password: &str) -> (hash: String)
    ensures
        hash@ == spec_password_hash(password@),
        hash@.len() == 64,
{
    let digest = sha256(password.as_bytes());
    proof {
        lemma_hex_len(digest@);
    }
    hex_encode(digest.as_slice())
}

/// Whether a user whose stored hash is `stored` (none if there is no such
/// user) may log in with `password`.
pub open spec fn spec_password_accepted(stored: Option<Seq<char>>, password: Seq<char>) -> bool {
    stored == Some(spec_password_hash(password))
}

/// Decides a login attempt from the stored hash of the user, if the user
/// exists.
pub fn password_matches(stored: Option<String>, password: &str) -> (ok: bool)
    ensures
        ok == spec_password_accepted(
            match stored {
                Some(h) => Some(h@),
                None => None,
            },
            password@,
        ),
{
    let hash = hash_password(password);
    match stored {
        Some(h) => h == hash,
        None => false,
    }
}

/// The text of the error that refuses a request whose session does not
/// belong to its user.
pub open spec fn spec_unauthorized() -> Seq<char> {
    "unauthorized session"@
}

/// Accepts a request from `username` whose session token belongs to `owner`
/// (none if the token names no session); refuses it otherwise.
pub fn authorize(owner: Option<String>, username: &str) -> (r: Result<(), AppError>)
    ensures
        r is Ok <==> (owner matches Some(o) && o@ == username@),
        r matches Err(e) ==> is_protocol_error(e, spec_unauthorized()),
{
    let name = username.to_owned();
    match owner {
        Some(o) => {
            if o == name {
                Ok(())
            } else {
                Err(AppError::Protocol(String::from_str("unauthorized session")))
            }
        },
        None => Err(AppError::Protocol(String::from_str("unauthorized session"))),
    }
}

/// The 16 bytes of `v`, most significant first.
pub open spec fn be_bytes(v: u128) -> Seq<u8> {
    Seq::new(16, |i: int| ((v as int / vstd::arithmetic::power2::pow2((8 * (15 - i)) as nat) as int) % 256) as u8)
}

/// Whether `v` is a random (version 4, RFC 4122 variant) UUID: the high
/// nibble of byte 6 is 4 and the top two bits of byte 8 are `10`.
pub open spec fn is_v4_token(v: u128) -> bool {
    be_bytes(v)[6] / 16 == 4 && be_bytes(v)[8] / 64 == 2
}

/// The hyphenated lower-case text of the UUID `v`: its 32 hexadecimal digits
/// in groups of 8, 4, 4, 4 and 12 joined by `-`.
pub open spec fn spec_token_text(v: u128) -> Seq<char> {
    let h = spec_hex(be_bytes(v));
    h.subrange(0, 8) + seq!['-'] + h.subrange(8, 12) + seq!['-'] + h.subrange(12, 16) + seq!['-']
        + h.subrange(16, 20) + seq!['-'] + h.subrange(20, 32)
}

/// `uuid::Uuid::new_v4`, taken as its 128-bit value: random, with the version
/// and variant bits of a random UUID set. It panics only when the operating
/// system yields no random bytes, which no argument can rule out.
#[verifier::external_body]
fn random_v4_token() -> (v: u128)
    ensures
        is_v4_token(v),
{
    uuid::Uuid::new_v4().as_u128()
}

/// `Uuid::to_string` (through `Uuid::from_u128`): the hyphenated lower-case
/// text of the UUID `v`.
#[verifier::external_body]
fn token_text(v: u128) -> (text: String)
    ensures
        text@ == spec_token_text(v),
{
    uuid::Uuid::from_u128(v).to_string()
}

/// A session token: the UUID's value and the text it is stored under.
pub struct SessionToken {
    pub value: u128,
    pub text: String,
}

/// Draws a fresh random session token.
pub fn issue_session_token() -> (t: SessionToken)
    ensures
        is_v4_token(t.value),
        t.text@ == spec_token_text(t.value),
        t.text@.len() == 36,
        t.text@[14] == '4',
{
    let value = random_v4_token();
    let text = token_text(value);
    proof {
        lemma_token_text(value);
    }
    SessionToken { value, text }
}

/// The digits of a byte in its hexadecimal text.
proof fn lemma_hex_index(data: Seq<u8>, k: int)
    requires
        0 <= k < data.len(),
    ensures
        spec_hex(data).len() == 2 * data.len(),
        spec_hex(data)[2 * k] == hex_digit(data[k] / 16),
        spec_hex(data)[2 * k + 1] == hex_digit(data[k] % 16),
    decreases data.len(),
{
    lemma_hex_len(data);
    lemma_hex_len(data.drop_last());
    if k < data.len() - 1 {
        lemma_hex_index(data.drop_last(), k);
    }
}

/// A token's text is 36 characters long and shows the version digit `4` at
/// index 14, where a random UUID's version goes.
pub proof fn lemma_token_text(v: u128)
    requires
        is_v4_token(v),
    ensures
        spec_token_text(v).len() == 36,
        spec_token_text(v)[14] == '4',
{
    let b = be_bytes(v);
    lemma_hex_index(b, 6);
    assert(hex_digit(4) == '4');
}

/// The hash that registration stores for a password is accepted when the
/// same password is presented at login.
pub proof fn lemma_registered_password_accepted(password: Seq<char>)
    ensures
        spec_password_accepted(Some(spec_password_hash(password)), password),
{
}

/// A login is refused for a user that does not exist, whatever the password.
pub proof fn lemma_unknown_user_refused(password: Seq<char>)
    ensures
        !spec_password_accepted(None, password),
{
}

/// The hexadecimal text of a digest has two characters per byte.
pub proof fn lemma_hex_len(data: Seq<u8>)
    ensures
        spec_hex(data).len() == 2 * data.len(),
    decreases data.len(),
{
    if data.len() > 0 {
        lemma_hex_len(data.drop_last());
    }
}

} // verus!
