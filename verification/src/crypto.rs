use vstd::prelude::*;

verus! {

/// The encoded digest that the hashing oracle computes for a secret and a
/// salt: a pure function of the two, left uninterpreted.
pub uninterp spec fn argon2_digest_of(secret: Seq<char>, salt: Seq<u8>) -> Seq<char>;

/// Whether the hashing oracle accepts a secret against an encoded digest:
/// a pure function of the two, left uninterpreted. A malformed digest
/// accepts nothing.
pub uninterp spec fn argon2_verifies(digest: Seq<char>, secret: Seq<char>) -> bool;

/// Relies on argon2::hash_encoded with the default configuration: the encoded
/// digest is a function of secret and salt alone, and verifying that digest
/// against the same secret succeeds. The call only rejects out-of-range
/// parameter sizes, which the preconditions rule out.
#[verifier::external_body]
fn argon2_hash(secret: &str, salt: &Vec<u8>) -> (r: String)
    requires
        8 <= salt@.len() <= 64,
        secret@.len() <= 0x3FFF_FFFF,
    ensures
        r@ == argon2_digest_of(secret@, salt@),
        argon2_verifies(r@, secret@),
{
    let config = argon2::Config::default();
    argon2::hash_encoded(secret.as_bytes(), salt.as_slice(), &config).unwrap()
}

/// Relies on argon2::verify_encoded: a deterministic check of the secret
/// against the encoded digest; any error (e.g. a malformed digest) counts as
/// a mismatch, never a crash.
#[verifier::external_body]
pub(crate) fn password_valid(hash: &str, pw: &str) -> (r: bool)
    ensures
        r == argon2_verifies(hash@, pw@),
{
    argon2::verify_encoded(hash, pw.as_bytes()).unwrap_or(false)
}

/// Relies on rand::random: twenty bytes from a per-call CSPRNG seeded by the
/// operating system; nothing is promised of their values.
#[verifier::external_body]
fn random_bytes() -> (r: Vec<u8>)
    ensures
        r@.len() == 20,
{
    rand::random::<[u8; 20]>().to_vec()
}

/// Lowercase hexadecimal digit of a nibble.
pub open spec fn hex_digit(n: u8) -> char {
    seq!['0', '1', '2', '3', '4', '5', '6', '7', '8', '9', 'a', 'b', 'c', 'd', 'e', 'f'][n as int]
}

/// Lowercase hexadecimal encoding: two digits per byte, high nibble first.
pub open spec fn hex_of(b: Seq<u8>) -> Seq<char>
    decreases b.len(),
{
    if b.len() == 0 {
        Seq::<char>::empty()
    } else {
        seq![hex_digit(b[0] / 16), hex_digit(b[0] % 16)] + hex_of(b.drop_first())
    }
}

/// The encoding is twice as long as the input.
pub proof fn lemma_hex_of_len(b: Seq<u8>)
    ensures
        hex_of(b).len() == 2 * b.len(),
    decreases b.len(),
{
    if b.len() > 0 {
        lemma_hex_of_len(b.drop_first());
    }
}

/// Relies on hex::encode: exactly the lowercase encoding [`hex_of`].
#[verifier::external_body]
fn hex_encode(b: &Vec<u8>) -> (r: String)
    ensures
        r@ == hex_of(b@),
{
    hex::encode(b.as_slice())
}

/// Hash a secret under a fresh random twenty-byte salt. The digest verifies
/// against the same secret and nothing is promised of any other.
pub fn hash_password(secret: &str) -> (r: String)
    requires
        secret@.len() <= 0x3FFF_FFFF,
    ensures
        argon2_verifies(r@, secret@),
        exists|salt: Seq<u8>| salt.len() == 20 && r@ == argon2_digest_of(secret@, salt),
{
    let salt = random_bytes();
    let r = argon2_hash(secret, &salt);
    proof {
        assert(salt@.len() == 20 && r@ == argon2_digest_of(secret@, salt@));
    }
    r
}

/// A fresh opaque session identifier: forty lowercase hex digits encoding
/// twenty random bytes (160 bits), making guessing infeasible.
pub(crate) fn gen_token() -> (r: String)
    ensures
        r@.len() == 40,
        exists|b: Seq<u8>| b.len() == 20 && r@ == hex_of(b),
{
    let bytes = random_bytes();
    let r = hex_encode(&bytes);
    proof {
        lemma_hex_of_len(bytes@);
        assert(bytes@.len() == 20 && r@ == hex_of(bytes@));
    }
    r
}

} // verus!
