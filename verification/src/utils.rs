//! Identifiers, UUID text and content hashes.

use vstd::prelude::*;
use vstd::string::StringExecFns;
use crate::encoding::{hex_of, is_hex_char, is_lower_hex, lemma_hex_of_shape, to_hex};

verus! {

/// Draws `count` bytes from `rand::thread_rng()` through
/// `rand::Rng::sample_iter`, each sampled from
/// `rand::distributions::Standard`. Nothing is claimed of the bytes
/// themselves: the iterator never ends, so `take(count)` yields exactly
/// `count` of them.
#[verifier::external_body]
fn random_bytes(count: usize) -> (bytes: Vec<u8>)
    ensures
        bytes@.len() == count,
{
    rand::Rng::sample_iter(rand::thread_rng(), rand::distributions::Standard).take(count).collect()
}

/// Calls `hex::encode`, which writes each byte as two lowercase hexadecimal
/// digits, the high half first.
#[verifier::external_body]
fn hex_encode(bytes: &[u8]) -> (text: String)
    ensures
        text@ == hex_of(bytes@),
{
    hex::encode(bytes)
}

/// A random identifier of `length / 2` bytes, written as lowercase
/// hexadecimal text. For an even `length` the text has exactly `length`
/// characters.
pub fn generate_hex_string(length: usize) -> (id: String)
    ensures
        id@.len() == 2 * (length / 2),
        length % 2 == 0 ==> id@.len() == length,
        is_lower_hex(id@),
        exists|bytes: Seq<u8>| bytes.len() == length / 2 && id@ == hex_of(bytes),
{
    let bytes = random_bytes(length / 2);
    proof {
        lemma_hex_of_shape(bytes@);
    }
    hex_encode(bytes.as_slice())
}

/// 256 to the power `n`.
pub open spec fn pow256(n: nat) -> nat
    decreases n,
{
    if n == 0 {
        1
    } else {
        256 * pow256((n - 1) as nat)
    }
}

/// The sixteen bytes of a UUID held as one number, most significant first.
pub open spec fn uuid_bytes(value: u128) -> Seq<u8> {
    Seq::new(16, |i: int| ((value as nat / pow256((15 - i) as nat)) % 256) as u8)
}

/// The usual text of a UUID: its bytes in lowercase hexadecimal, in groups
/// of 8, 4, 4, 4 and 12 digits with a hyphen between them.
pub open spec fn hyphenated_text(value: u128) -> Seq<char> {
    let digits = hex_of(uuid_bytes(value));
    digits.subrange(0, 8) + seq!['-'] + digits.subrange(8, 12) + seq!['-'] + digits.subrange(
        12,
        16,
    ) + seq!['-'] + digits.subrange(16, 20) + seq!['-'] + digits.subrange(20, 32)
}

/// Hyphenated UUID text has 36 characters: hyphens at the 9th, 14th, 19th
/// and 24th place, lowercase hexadecimal digits everywhere else.
pub proof fn lemma_hyphenated_shape(value: u128)
    ensures
        hyphenated_text(value).len() == 36,
        forall|i: int|
            0 <= i < 36 ==> if i == 8 || i == 13 || i == 18 || i == 23 {
                #[trigger] hyphenated_text(value)[i] == '-'
            } else {
                is_hex_char(hyphenated_text(value)[i])
            },
{
    lemma_hex_of_shape(uuid_bytes(value));
}

/// The UUID that `uuid::Uuid::parse_str` reads from `text`, as one
/// big-endian number, or `None` where it reads none.
pub uninterp spec fn parsed_uuid(text: Seq<char>) -> Option<u128>;

/// The text that `base64::encode` gives for `content`, as bytes.
pub uninterp spec fn base64_text(content: Seq<u8>) -> Seq<u8>;

/// The SHA-256 digest of `data`, as `sha2` computes it.
pub uninterp spec fn sha256(data: Seq<u8>) -> Seq<u8>;

/// Calls `uuid::Uuid::parse_str` and hands the UUID back through
/// `Uuid::as_u128`. The parser is a function of the text alone; which texts
/// it takes is left to it.
#[verifier::external_body]
pub(crate) fn parse_uuid(text: &str) -> (value: Option<u128>)
    ensures
        value == parsed_uuid(text@),
{
    match uuid::Uuid::parse_str(text) {
        Ok(id) => Some(id.as_u128()),
        Err(_) => None,
    }
}

/// Formats `uuid::Uuid::from_u128(value)` through `Uuid::as_hyphenated`:
/// thirty-two lowercase hexadecimal digits of the big-endian bytes, with
/// hyphens after the 8th, 12th, 16th and 20th digit.
#[verifier::external_body]
pub(crate) fn hyphenate(value: u128) -> (text: String)
    ensures
        text@ == hyphenated_text(value),
{
    uuid::Uuid::from_u128(value).as_hyphenated().to_string()
}

/// Calls `base64::encode` (standard alphabet, padded) and hands the text
/// back as its bytes. The call panics where the encoded length does not fit
/// in `usize`, hence the bound.
#[verifier::external_body]
fn base64_encode(content: &[u8]) -> (text: Vec<u8>)
    requires
        4 * ((content@.len() + 2) / 3) <= usize::MAX,
    ensures
        text@ == base64_text(content@),
{
    base64::encode(content).into_bytes()
}

/// Calls `sha2::Sha256::digest`, whose output is 32 bytes long.
#[verifier::external_body]
fn sha256_digest(data: &[u8]) -> (digest: Vec<u8>)
    ensures
        digest@ == sha256(data@),
        digest@.len() == 32,
{
    <sha2::Sha256 as sha2::Digest>::digest(data).to_vec()
}

/// The text was not a UUID.
#[derive(Debug, PartialEq, Eq, Structural)]
pub struct InvalidUuid;

/// Brings a UUID in any form the parser takes into hyphenated form.
pub fn format_uuid(uuid_in: String) -> (formatted: Result<String, InvalidUuid>)
    ensures
        match parsed_uuid(uuid_in@) {
            Some(value) => formatted matches Ok(text) && text@ == hyphenated_text(value),
            None => formatted is Err,
        },
{
    match parse_uuid(uuid_in.as_str()) {
        Some(value) => Ok(hyphenate(value)),
        None => Err(InvalidUuid),
    }
}

/// Where the avatar of the identity named `owner` is kept.
pub fn avatar_file(owner: &str) -> (path: String)
    ensures
        path@ == "avatars/"@ + owner@ + ".moon"@,
{
    let mut path = String::from_str("avatars/");
    path.append(owner);
    path.append(".moon");
    path
}

/// The fingerprint of an avatar file's content: the SHA-256 digest of the
/// content's base64 text, in lowercase hexadecimal.
pub fn calculate_file_sha256(content: &[u8]) -> (fingerprint: String)
    requires
        4 * ((content@.len() + 2) / 3) <= usize::MAX,
    ensures
        fingerprint@ == hex_of(sha256(base64_text(content@))),
        fingerprint@.len() == 64,
        is_lower_hex(fingerprint@),
{
    let text = base64_encode(content);
    let digest = sha256_digest(text.as_slice());
    proof {
        lemma_hex_of_shape(digest@);
    }
    to_hex(digest.as_slice())
}

/// The port the service listens on unless told otherwise.
pub const DEFAULT_PORT: u16 = 8080;

/// The port the service listens on when an argument asks for it.
pub const ALTERNATE_PORT: u16 = 8081;

/// One of the arguments is the word that asks for the alternate port.
pub open spec fn asks_for_alternate_port(args: Seq<String>) -> bool {
    exists|i: int| 0 <= i < args.len() && (#[trigger] args[i])@ == "p8081"@
}

/// The port to listen on, given the arguments of the process.
pub fn listen_port(args: &Vec<String>) -> (port: u16)
    ensures
        port == if asks_for_alternate_port(args@) {
            ALTERNATE_PORT
        } else {
            DEFAULT_PORT
        },
{
    let word = String::from_str("p8081");
    let mut i: usize = 0;
    while i < args.len()
        invariant
            i <= args.len(),
            word@ == "p8081"@,
            forall|j: int| 0 <= j < i ==> (#[trigger] args@[j])@ != "p8081"@,
        decreases args.len() - i,
    {
        if args[i] == word {
            return ALTERNATE_PORT;
        }
        i = i + 1;
    }
    DEFAULT_PORT
}

} // verus!
