//! The records that a reading leaves behind: run and safety statuses, cache keys, the error of a
//! storage operation, and the digest that identifies a JSON document.
use sha2::Digest;
use vstd::prelude::*;

verus! {

/// The SHA-256 digest of the bytes.
pub uninterp spec fn sha256_of(bytes: Seq<u8>) -> Seq<u8>;

/// The lower-case hexadecimal digit of a value below 16.
pub open spec fn lower_hex_digit(d: nat) -> char {
    if d < 10 {
        crate::text::digit_char(d)
    } else if d == 10 { 'a' } else if d == 11 { 'b' } else if d == 12 { 'c' } else if d == 13 { 'd' }
    else if d == 14 { 'e' } else { 'f' }
}

/// Two lower-case hexadecimal digits per byte, high digit first (`hex::encode`).
pub open spec fn lower_hex(bytes: Seq<u8>) -> Seq<char>
    decreases bytes.len(),
{
    if bytes.len() == 0 {
        seq![]
    } else {
        lower_hex(bytes.drop_last()) + seq![
            lower_hex_digit((bytes.last() / 16) as nat),
            lower_hex_digit((bytes.last() % 16) as nat),
        ]
    }
}

/// `sha2::Sha256::digest`: the named digest of the bytes, 32 bytes long.
#[verifier::external_body]
fn sha256_digest(bytes: &[u8]) -> (r: Vec<u8>)
    ensures
        r@ == sha256_of(bytes@),
        r@.len() == 32,
{
    sha2::Sha256::digest(bytes).to_vec()
}

/// `hex::encode`: two lower-case hexadecimal digits per byte, in order.
#[verifier::external_body]
fn hex_encode(bytes: &[u8]) -> (r: String)
    ensures
        r@ == lower_hex(bytes@),
{
    hex::encode(bytes)
}

/// The digest that identifies a serialized JSON document: its SHA-256 in lower-case hex.
pub fn hash_json_bytes(bytes: &[u8]) -> (r: String)
    ensures
        r@ == lower_hex(sha256_of(bytes@)),
        r@.len() == 64,
{
    let digest = sha256_digest(bytes);
    proof {
        lemma_lower_hex_len(digest@);
    }
    hex_encode(digest.as_slice())
}

proof fn lemma_lower_hex_len(bytes: Seq<u8>)
    ensures
        lower_hex(bytes).len() == 2 * bytes.len(),
    decreases bytes.len(),
{
    if bytes.len() > 0 {
        lemma_lower_hex_len(bytes.drop_last());
    }
}

/// The outcome of a generation run.
#[derive(Debug, Clone, Copy, PartialEq, Eq, Structural)]
pub enum PersistedRunStatus {
    Success,
    Failed,
    SafetyRejected,
    Pending,
}

/// The outcome of the safety checks of a run.
#[derive(Debug, Clone, Copy, PartialEq, Eq, Structural)]
pub enum PersistedSafetyStatus {
    Passed,
    Rejected,
    NotChecked,
}

/// The key of a cached natal explanation: its language and the digest of its canonical key.
#[derive(Debug)]
pub struct ExplanationCacheKeyRecord {
    pub language_code: String,
    pub key_hash: String,
}

/// A storage operation that failed.
#[derive(Debug)]
pub enum ReadingPersistenceError {
    Operation { operation: String, message: String },
}

impl ReadingPersistenceError {
    /// The failure of the named operation, with the message of its cause.
    pub fn from_message(operation: &str, message: &str) -> (r: Self)
        ensures
            r == (ReadingPersistenceError::Operation { operation: r->operation, message: r->message }),
            r->operation@ == operation@,
            r->message@ == message@,
    {
        ReadingPersistenceError::Operation { operation: operation.to_owned(), message: message.to_owned() }
    }

    /// `<operation> failed: <message>`.
    pub fn to_text(&self) -> (r: String)
        ensures
            r@ == self->operation@ + " failed: "@ + self->message@,
    {
        match self {
            ReadingPersistenceError::Operation { operation, message } => {
                let mut t = operation.clone();
                t.append(" failed: ");
                t.append(message.as_str());
                t
            },
        }
    }
}

} // verus!
