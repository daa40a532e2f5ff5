//! The daemon's configuration record and the persisted comment-fingerprint
//! row shape.

use vstd::prelude::*;

use crate::text::hex_of;
use sha2::Digest;

verus! {

/// The daemon's configuration: the identity to track, database
/// credentials, port, and how long to sleep between polling cycles.
/// Loaded once at process start and immutable afterwards.
pub struct Config {
    pub hn_username: String,
    pub db_username: String,
    pub db_pass: String,
    pub port: i32,
    pub polling_interval_seconds: i32,
}

impl Default for Config {
    /// The defaults offered at initialization: empty identity and
    /// credentials, the usual database port, and a one-minute interval.
    fn default() -> (r: Self)
        ensures
            r.hn_username@ == Seq::<char>::empty(),
            r.db_username@ == Seq::<char>::empty(),
            r.db_pass@ == Seq::<char>::empty(),
            r.port == 3306,
            r.polling_interval_seconds == 60,
    {
        Config {
            hn_username: String::new(),
            db_username: String::new(),
            db_pass: String::new(),
            port: 3306,
            polling_interval_seconds: 60,
        }
    }
}

/// What the SHA-256 digest of a string's UTF-8 bytes is, as sha2 computes
/// it: a function of the input characters alone.
pub uninterp spec fn sha2_digest_of(input: Seq<char>) -> Seq<u8>;

/// Relies on sha2's `Sha256::digest`: the digest is a deterministic
/// function of the input bytes, and a SHA-256 digest is 32 bytes long.
#[verifier::external_body]
fn sha2_sha256_digest(text: &str) -> (r: Vec<u8>)
    ensures
        r@ == sha2_digest_of(text@),
        r@.len() == 32,
{
    let mut hasher = sha2::Sha256::new();
    hasher.update(text.as_bytes());
    hasher.finalize().to_vec()
}

/// Relies on std's `SystemTime::now`: the wall clock's reading, floored to
/// whole seconds since the UNIX epoch, negative for a clock set before it.
/// Nothing can be promised of the reading, and no clock state panics here.
#[verifier::external_body]
fn now_timestamp() -> i64 {
    match std::time::SystemTime::now().duration_since(std::time::UNIX_EPOCH) {
        Ok(dur) => dur.as_secs() as i64,
        Err(e) => {
            let dur = e.duration();
            if dur.subsec_nanos() == 0 {
                -(dur.as_secs() as i64)
            } else {
                -(dur.as_secs() as i64) - 1
            }
        },
    }
}

/// One row of the fingerprint log: when it was recorded and the
/// hex-encoded SHA-256 hash of the comment text.
pub struct HnComments {
    timestamp: i64,
    hash_sha: String,
}

/// The mathematical value of an `HnComments` row.
pub ghost struct HnCommentsView {
    pub timestamp: int,
    pub hash_sha: Seq<char>,
}

impl View for HnComments {
    type V = HnCommentsView;

    closed spec fn view(&self) -> HnCommentsView {
        HnCommentsView { timestamp: self.timestamp as int, hash_sha: self.hash_sha@ }
    }
}

impl HnComments {
    /// Builds a row for the given moment (seconds since the UNIX epoch)
    /// and comment text.
    pub fn new(timestamp: i64, text: &str) -> (r: Self)
        ensures
            r@.timestamp == timestamp as int,
            r@.hash_sha == hex_of(sha2_digest_of(text@)),
            r@.hash_sha.len() == 64,
    {
        let hash_sha = HnComments::calculate_hash(text);
        Self { timestamp, hash_sha }
    }

    fn calculate_hash(text: &str) -> (r: String)
        ensures
            r@ == hex_of(sha2_digest_of(text@)),
            r@.len() == 64,
    {
        let digest = sha2_sha256_digest(text);
        proof {
            crate::text::lemma_hex_of_len(digest@);
        }
        crate::comments_checker::hex_encode(&digest)
    }

    /// When this row was recorded, in seconds since the UNIX epoch.
    pub fn timestamp(&self) -> (r: i64)
        ensures
            r as int == self@.timestamp,
    {
        self.timestamp
    }

    /// The recorded fingerprint.
    pub fn hash_sha(&self) -> (r: &String)
        ensures
            r@ == self@.hash_sha,
    {
        &self.hash_sha
    }
}

impl Default for HnComments {
    /// An empty row stamped with the current time.
    fn default() -> (r: Self)
        ensures
            r@.hash_sha == Seq::<char>::empty(),
    {
        HnComments { timestamp: now_timestamp(), hash_sha: String::new() }
    }
}

} // verus!
