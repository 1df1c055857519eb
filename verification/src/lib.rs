//! Derivation of billed-resolution claim records from vendor-neutral helpdesk records.
//!
//! A vendor billing per resolution can take the buyer's source bundle and ruleset, run this
//! derivation, and recompute every claim record, including the `inputs_sha256` and
//! `ruleset_sha256` digests it carries. The derivation is a function of the bundle, the ruleset,
//! the period and the evaluation time, and nothing else.
use sha2::Digest;
use vstd::prelude::*;

pub mod canonical;
pub mod criteria;
pub mod json;
pub mod laws;
pub mod model;
pub mod normalise;
pub mod readback;
pub mod record_laws;
pub mod ruleset;
pub mod source;
pub mod text;
pub mod time;

pub use model::{ClaimRecord, Outcome, RequesterClass};
pub use ruleset::Ruleset;
pub use source::SourceBundle;

verus! {

/// This crate's version, so a document produced with it can name the derivation that made it.
pub const VERSION: &'static str = "0.1.0";

/// Errors surfaced by this crate.
#[derive(Debug, Clone, PartialEq, Eq)]
pub enum Error {
    /// A required configuration value was absent.
    MissingConfig(String),
    /// A file could not be read or written.
    Io {
        /// The path being read or written.
        path: String,
        /// What went wrong.
        detail: String,
    },
    /// A document did not parse.
    Parse {
        /// What was being parsed.
        what: String,
        /// What went wrong.
        detail: String,
    },
    /// An upstream HTTP call failed.
    Http {
        /// Which service.
        service: String,
        /// What went wrong.
        detail: String,
    },
    /// A signing or key error.
    Key(String),
    /// A ruleset was not usable.
    Ruleset(String),
    /// Inputs that are individually valid but cannot be used together.
    Conflict(String),
}

/// SHA-256 of a byte sequence: 32 bytes.
pub uninterp spec fn sha256_of(data: Seq<u8>) -> Seq<u8>;

/// Lowercase hexadecimal text of a byte sequence, high nibble first.
pub open spec fn hex_lower(bytes: Seq<u8>) -> Seq<char> {
    Seq::new(
        2 * bytes.len(),
        |i: int|
            crate::text::hex_char(
                if i % 2 == 0 {
                    (bytes[i / 2] / 16) as int
                } else {
                    (bytes[i / 2] % 16) as int
                },
            ),
    )
}

/// The SHA-256 digest of `data`.
///
/// Trusted: calls sha2's `Sha256::digest`, whose output is the 32-byte SHA-256 of its input.
#[verifier::external_body]
fn sha256_bytes(data: &[u8]) -> (out: Vec<u8>)
    ensures
        out@ == sha256_of(data@),
        out@.len() == 32,
{
    sha2::Sha256::digest(data).to_vec()
}

/// Lowercase hex of `bytes`.
///
/// Trusted: calls `hex::encode`, which writes each byte as two characters of
/// `0123456789abcdef`, high nibble first.
#[verifier::external_body]
fn hex_encode(bytes: &[u8]) -> (s: String)
    ensures
        s@ == hex_lower(bytes@),
{
    hex::encode(bytes)
}

/// SHA-256 as lowercase hex: 64 characters.
pub fn sha256_hex(bytes: &[u8]) -> (s: String)
    ensures
        s@ == hex_lower(sha256_of(bytes@)),
        s@.len() == 64,
{
    let digest = sha256_bytes(bytes);
    hex_encode(digest.as_slice())
}

/// The digest of a text: SHA-256 of its UTF-8 encoding, as lowercase hex.
pub open spec fn text_digest(text: Seq<char>) -> Seq<char> {
    hex_lower(sha256_of(vstd::utf8::encode_utf8(text)))
}

/// The digest of a text.
pub fn digest_of_text(text: &str) -> (s: String)
    ensures
        s@ == text_digest(text@),
        s@.len() == 64,
{
    sha256_hex(text.as_bytes())
}

} // verus!
