use vstd::prelude::*;

verus! {

/// Whether a stored bcrypt hash string was derived from a plaintext.
///
/// bcrypt's check re-derives the hash from the cost and salt encoded in
/// the stored string, so the outcome is a function of the two arguments
/// alone; a string that is not a well-formed bcrypt hash matches nothing.
pub uninterp spec fn bcrypt_matches(password: Seq<char>, hash: Seq<char>) -> bool;

/// The shape of every hash bcrypt produces here: exactly sixty characters,
/// beginning with the version marker. A stored credential of this shape is
/// visibly not a plaintext password.
pub open spec fn bcrypt_hash_format(h: Seq<char>) -> bool {
    h.len() == 60 && h[0] == '$' && h[1] == '2' && h[2] == 'b' && h[3] == '$'
}

/// Relies on bcrypt::verify: deterministic in the plaintext and the stored
/// hash; an error on a malformed stored hash is treated as a non-match.
#[verifier::external_body]
pub(crate) fn verify_password(password: &str, hash: &str) -> (r: bool)
    ensures
        r == bcrypt_matches(password@, hash@),
{
    bcrypt::verify(password, hash).unwrap_or(false)
}

/// Relies on bcrypt::hash at the crate's default cost: the salt is drawn
/// from the operating system, so of the result only its sixty-character
/// version-marked format is known, and that bcrypt::verify accepts it for
/// the same plaintext.
#[verifier::external_body]
pub(crate) fn hash_password(password: &str) -> (r: Option<String>)
    ensures
        r matches Some(h) ==> bcrypt_matches(password@, h@) && bcrypt_hash_format(h@),
{
    bcrypt::hash(password, bcrypt::DEFAULT_COST).ok()
}

} // verus!
