//! What comes from outside: the random number generator, the clock, the hash function and the
//! formatter. Each item here states what is relied upon without proof.
use sha2::Digest;
use vstd::prelude::*;

verus! {

/// The text that the formatter's `{:?}` makes of a text: quoted, with escapes.
pub uninterp spec fn debug_text(s: Seq<char>) -> Seq<char>;

/// The text that the formatter's `{:?}` makes of a character: quoted, with escapes.
pub uninterp spec fn debug_char(c: char) -> Seq<char>;

/// The SHA-256 digest of a message.
pub uninterp spec fn sha256(message: Seq<u8>) -> Seq<u8>;

/// Calls `format!("{:?}", ..)` on a text. The result depends on the text alone; which characters
/// are escaped, and how, is left unsaid.
#[verifier::external_body]
pub(crate) fn quoted(s: &str) -> (q: String)
    ensures
        q@ == debug_text(s@),
{
    format!("{:?}", s)
}

/// Calls `format!("{:?}", ..)` on a character. The result depends on the character alone; which
/// characters are escaped, and how, is left unsaid.
#[verifier::external_body]
pub(crate) fn quoted_char(c: char) -> (q: String)
    ensures
        q@ == debug_char(c),
{
    format!("{:?}", c)
}

/// Calls `uuid::Uuid::new_v4`: sixteen random bytes, of which the version (four) and the variant
/// (binary 10) are fixed. Nothing is said of the other bits. The call panics when the operating
/// system has no random numbers to give.
#[verifier::external_body]
pub(crate) fn random_uuid() -> (bytes: [u8; 16])
    ensures
        bytes@[6] / 16 == 4,
        bytes@[8] / 64 == 2,
{
    uuid::Uuid::new_v4().into_bytes()
}

/// Calls `std::time::SystemTime::elapsed` on the Unix epoch: the whole seconds since then, or
/// `None` when the clock stands before it. Nothing is said of the number.
#[verifier::external_body]
pub(crate) fn seconds_since_epoch() -> (seconds: Option<u64>) {
    match std::time::UNIX_EPOCH.elapsed() {
        Ok(since) => Some(since.as_secs()),
        Err(_) => None,
    }
}

/// Calls `sha2::Sha256::digest`: the SHA-256 digest of the message, which is 32 bytes long and
/// depends on the message alone. Its count of bits is a `u64`, so the message has to be shorter
/// than 2^61 bytes.
#[verifier::external_body]
pub(crate) fn sha256_of(message: &[u8]) -> (digest: [u8; 32])
    requires
        message@.len() < 0x2000_0000_0000_0000,
    ensures
        digest@ == sha256(message@),
{
    sha2::Sha256::digest(message).into()
}

} // verus!
