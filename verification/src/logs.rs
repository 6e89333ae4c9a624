use vstd::prelude::*;

use crate::hex::{hex_of, is_hex_char, lemma_hex_of_chars, lemma_hex_of_injective, to_hex};

verus! {

/// How many random bytes go into a log identifier.
pub const LOG_ID_BYTES: usize = 16;

/// How many characters a log identifier has: two hexadecimal digits per
/// random byte.
pub const LOG_ID_CHARS: usize = 32;

/// One persisted command output: the freshly drawn identifier that names its
/// file, and the captured bytes. A record is never changed once made.
pub struct LogRecord {
    pub id: String,
    pub content: Vec<u8>,
}

/// A well-formed log identifier: exactly the fixed length, every character a
/// lowercase hexadecimal digit. Every identifier this store issues has this
/// shape, and retrieval serves only names of this shape, so no served name
/// can carry a path separator or a parent-directory segment.
pub open spec fn valid_log_id(s: Seq<char>) -> bool {
    s.len() == LOG_ID_CHARS && forall|i: int| 0 <= i < s.len() ==> is_hex_char(#[trigger] s[i])
}

/// Relies on rand::rngs::OsRng, through rand_core's RngCore::fill_bytes: it
/// fills the buffer from the operating system's random source. Only the
/// byte count is assumed; the values are random and nothing is said of them.
#[verifier::external_body]
fn random_bytes() -> (r: Vec<u8>)
    ensures
        r@.len() == LOG_ID_BYTES,
{
    let mut data = [0u8; 16];
    rand::RngCore::fill_bytes(&mut rand::rngs::OsRng, &mut data);
    data.to_vec()
}

/// The hexadecimal rendering of a full-length draw of random bytes is a
/// well-formed log identifier.
pub proof fn lemma_fresh_id_valid(b: Seq<u8>)
    requires
        b.len() == LOG_ID_BYTES,
    ensures
        valid_log_id(hex_of(b)),
{
    lemma_hex_of_chars(b);
}

/// Identifiers drawn from distinct byte sequences are themselves distinct:
/// records collide only if the random source repeats itself.
pub proof fn lemma_distinct_draws_distinct_ids(a: Seq<u8>, b: Seq<u8>)
    requires
        a != b,
    ensures
        hex_of(a) != hex_of(b),
{
    if hex_of(a) == hex_of(b) {
        lemma_hex_of_injective(a, b);
    }
}

/// A well-formed log identifier holds no path separator, no parent-directory
/// segment and no leading dot: resolving it under the logs directory cannot
/// escape that directory.
pub proof fn lemma_valid_id_contained(s: Seq<char>)
    requires
        valid_log_id(s),
    ensures
        forall|i: int| 0 <= i < s.len() ==> #[trigger] s[i] != '/' && s[i] != '\\' && s[i] != '.',
{
}

/// Makes the log record for one captured command output: draws a fresh
/// random identifier, renders it in hexadecimal, and pairs it with the
/// content unchanged. The identifier is well formed, and it is the rendering
/// of some full-length byte draw, so two records disagree whenever their
/// draws do.
pub fn make_log_record(content: Vec<u8>) -> (r: LogRecord)
    ensures
        r.content@ == content@,
        valid_log_id(r.id@),
        exists|b: Seq<u8>| b.len() == LOG_ID_BYTES && r.id@ == hex_of(b),
{
    let bytes = random_bytes();
    let id = to_hex(&bytes);
    proof {
        lemma_fresh_id_valid(bytes@);
    }
    LogRecord { id, content }
}

fn is_hex_char_exec(c: char) -> (r: bool)
    ensures
        r == is_hex_char(c),
{
    c == '0' || c == '1' || c == '2' || c == '3' || c == '4' || c == '5' || c == '6' || c == '7'
        || c == '8' || c == '9' || c == 'a' || c == 'b' || c == 'c' || c == 'd' || c == 'e' || c
        == 'f'
}

/// Decides whether a requested log name may be served: only a well-formed
/// identifier is, so a request can never name a file outside the logs
/// directory. Absence of the file itself is the caller's "not found".
pub fn is_safe_log_name(name: &str) -> (r: bool)
    ensures
        r == valid_log_id(name@),
{
    let n = name.unicode_len();
    if n != LOG_ID_CHARS {
        return false;
    }
    let mut i: usize = 0;
    while i < n
        invariant
            0 <= i <= n,
            n == name@.len(),
            n == LOG_ID_CHARS,
            forall|k: int| 0 <= k < i ==> is_hex_char(#[trigger] name@[k]),
        decreases n - i,
    {
        if !is_hex_char_exec(name.get_char(i)) {
            return false;
        }
        i = i + 1;
    }
    true
}

} // verus!
