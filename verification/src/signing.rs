//! Request signatures and the text forms of bytes.
use crate::text;
use hmac::Mac;
use vstd::prelude::*;
use vstd::string::*;

verus! {

/// The bytes that a text denotes in standard base64, if it is base64.
pub uninterp spec fn base64_bytes(text: Seq<char>) -> Option<Seq<u8>>;

/// The HMAC-SHA256 code of a message under a key.
pub uninterp spec fn hmac_sha256(key: Seq<u8>, message: Seq<u8>) -> Seq<u8>;

/// `base64::decode`, which reads the standard alphabet with padding. What it reads, and whether it
/// does, is a function of the text alone, here called [`base64_bytes`].
#[allow(deprecated)]
#[verifier::external_body]
fn decode_base64(text: &str) -> (bytes: Option<Vec<u8>>)
    ensures
        match bytes {
            Some(b) => base64_bytes(text@) == Some(b@),
            None => base64_bytes(text@) is None,
        },
{
    base64::decode(text).ok()
}

/// `hmac::Hmac` over `sha2::Sha256`: a code of 32 bytes that is a function of the key and the
/// message alone, here called [`hmac_sha256`]. A key can have any length.
#[verifier::external_body]
fn authentication_code(key: &[u8], message: &[u8]) -> (code: Vec<u8>)
    ensures
        code@ == hmac_sha256(key@, message@),
        code@.len() == 32,
{
    let mut mac = hmac::Hmac::<sha2::Sha256>::new_from_slice(key).expect("keys have any length");
    mac.update(message);
    mac.finalize().into_bytes().to_vec()
}

/// The character of a hexadecimal digit, in lower case.
pub open spec fn hex_char(digit: int) -> char {
    if digit < 10 {
        (digit + 48) as char
    } else {
        (digit + 87) as char
    }
}

/// Bytes in hexadecimal, two digits for each.
pub open spec fn hex_text(bytes: Seq<u8>) -> Seq<char> {
    Seq::new(
        2 * bytes.len(),
        |i: int|
            if i % 2 == 0 {
                hex_char(bytes[i / 2] as int / 16)
            } else {
                hex_char(bytes[i / 2] as int % 16)
            },
    )
}

/// `hex::encode`, which writes each byte as two lower-case hexadecimal digits, the higher one first.
#[verifier::external_body]
fn encode_hex(bytes: &[u8]) -> (text: String)
    ensures
        text@ == hex_text(bytes@),
{
    hex::encode(bytes)
}

/// The value of a hexadecimal digit, or -1 for another character.
pub open spec fn hex_value(c: char) -> int {
    if '0' <= c && c <= '9' {
        c as int - 48
    } else if 'a' <= c && c <= 'f' {
        c as int - 87
    } else if 'A' <= c && c <= 'F' {
        c as int - 55
    } else {
        -1
    }
}

/// A text without a leading `0x` or `0X`.
pub open spec fn without_mark(text: Seq<char>) -> Seq<char> {
    if text.len() >= 2 && text[0] == '0' && (text[1] == 'x' || text[1] == 'X') {
        text.skip(2)
    } else {
        text
    }
}

/// The 32 bytes that a text denotes: 64 hexadecimal digits in either case, after an optional mark.
pub open spec fn word_of(text: Seq<char>) -> Option<Seq<u8>> {
    let body = without_mark(text);
    if body.len() == 64 && (forall|i: int| 0 <= i < 64 ==> hex_value(#[trigger] body[i]) >= 0) {
        Some(
            Seq::new(32, |i: int| (16 * hex_value(body[2 * i]) + hex_value(body[2 * i + 1])) as u8),
        )
    } else {
        None
    }
}

/// `alloy::primitives::B256::from_str`, which reads 64 hexadecimal digits, with or without `0x` or
/// `0X` before them, as 32 bytes, and nothing else.
#[verifier::external_body]
pub(crate) fn parse_word(text: &str) -> (word: Option<Vec<u8>>)
    ensures
        match word {
            Some(w) => word_of(text@) == Some(w@),
            None => word_of(text@) is None,
        },
{
    text.parse::<alloy::primitives::B256>().ok().map(|word| word.to_vec())
}

/// The address that a text denotes, where its letters carry the right checksum.
pub uninterp spec fn checksummed_address(text: Seq<char>) -> Option<Seq<u8>>;

/// `alloy::primitives::Address::parse_checksummed` for no chain in particular: the 20 bytes of an
/// address whose mixed case is its checksum. Which texts those are is a function of the text alone,
/// here called [`checksummed_address`].
#[verifier::external_body]
pub(crate) fn parse_address(text: &str) -> (address: Option<Vec<u8>>)
    ensures
        match address {
            Some(a) => checksummed_address(text@) == Some(a@) && a@.len() == 20,
            None => checksummed_address(text@) is None,
        },
{
    alloy::primitives::Address::parse_checksummed(text, None).ok().map(|address| address.to_vec())
}

/// Whether a text is a private key that can sign.
pub uninterp spec fn is_private_key(text: Seq<char>) -> bool;

/// Whether `alloy::signers::local::PrivateKeySigner::from_str` takes a text for a key: a function of
/// the text alone, here called [`is_private_key`].
#[verifier::external_body]
pub(crate) fn can_sign(text: &str) -> (can: bool)
    ensures
        can == is_private_key(text@),
{
    text.parse::<alloy::signers::local::PrivateKeySigner>().is_ok()
}

/// The bytes that a secret stands for: those that it denotes in base64, or else its own.
pub open spec fn key_of(decoded: Option<Seq<u8>>, secret: Seq<char>) -> Seq<u8> {
    match decoded {
        Some(bytes) => bytes,
        None => vstd::utf8::encode_utf8(secret),
    }
}

/// The bytes that a secret stands for, given what it denotes in base64.
pub fn secret_key(decoded: Option<Vec<u8>>, secret: &str) -> (key: Vec<u8>)
    ensures
        key@ == key_of(
            match decoded {
                Some(bytes) => Some(bytes@),
                None => None,
            },
            secret@,
        ),
{
    match decoded {
        Some(bytes) => bytes,
        None => secret.as_bytes_vec(),
    }
}

/// What is signed for a request: its method, its path, its body and the time.
pub open spec fn signed_text(
    method: Seq<char>,
    path: Seq<char>,
    body: Seq<char>,
    timestamp: u64,
) -> Seq<char> {
    method + path + body + text::digits(timestamp as nat)
}

/// What is signed for a request.
pub fn signed_message(method: &str, path: &str, body: &str, timestamp: u64) -> (message: String)
    ensures
        message@ == signed_text(method@, path@, body@, timestamp),
{
    let mut message = text::joined(method, path);
    message.append(body);
    text::append_number(&mut message, timestamp);
    message
}

/// The signature of a request: the code of its text under the secret, in hexadecimal.
pub open spec fn signature_of(
    secret: Seq<char>,
    method: Seq<char>,
    path: Seq<char>,
    body: Seq<char>,
    timestamp: u64,
) -> Seq<char> {
    hex_text(
        hmac_sha256(
            key_of(base64_bytes(secret), secret),
            vstd::utf8::encode_utf8(signed_text(method, path, body, timestamp)),
        ),
    )
}

/// The signature of a request. It has 64 characters.
pub fn sign(secret: &str, method: &str, path: &str, body: &str, timestamp: u64) -> (signature: String)
    ensures
        signature@ == signature_of(secret@, method@, path@, body@, timestamp),
        signature@.len() == 64,
{
    let key = secret_key(decode_base64(secret), secret);
    let message = signed_message(method, path, body, timestamp);
    let code = authentication_code(key.as_slice(), message.as_str().as_bytes());
    encode_hex(code.as_slice())
}

/// Hexadecimal digits are read as what they were written for.
proof fn lemma_hex_digit(digit: int)
    requires
        0 <= digit < 16,
    ensures
        hex_value(hex_char(digit)) == digit,
{
}

/// Writing 32 bytes in hexadecimal and reading them back gives the bytes, with a mark before them
/// or without one.
pub proof fn word_round_trip(bytes: Seq<u8>)
    requires
        bytes.len() == 32,
    ensures
        word_of(hex_text(bytes)) == Some(bytes),
        word_of("0x"@ + hex_text(bytes)) == Some(bytes),
{
    let written = hex_text(bytes);
    reveal_strlit("0x");
    assert forall|i: int| 0 <= i < 64 implies hex_value(#[trigger] written[i]) >= 0 && hex_value(
        written[i],
    ) == (if i % 2 == 0 {
        bytes[i / 2] as int / 16
    } else {
        bytes[i / 2] as int % 16
    }) by {
        lemma_hex_digit(bytes[i / 2] as int / 16);
        lemma_hex_digit(bytes[i / 2] as int % 16);
    }
    assert(hex_value(written[1]) >= 0);
    assert(without_mark(written) == written);
    assert(without_mark("0x"@ + written) =~= written);
    let read = Seq::new(
        32,
        |i: int| (16 * hex_value(written[2 * i]) + hex_value(written[2 * i + 1])) as u8,
    );
    assert forall|i: int| 0 <= i < 32 implies read[i] == bytes[i] by {
        assert(hex_value(written[2 * i]) == bytes[i] as int / 16);
        assert(hex_value(written[2 * i + 1]) == bytes[i] as int % 16);
    }
    assert(read =~= bytes);
}

/// What is signed holds the whole request: first the method, then the path, then the body, and at the
/// end the time.
pub proof fn whole_request_is_signed(
    method: Seq<char>,
    path: Seq<char>,
    body: Seq<char>,
    timestamp: u64,
)
    ensures
        ({
            let signed = signed_text(method, path, body, timestamp);
            let a = method.len() as int;
            let b = a + path.len();
            let c = b + body.len();
            &&& signed.subrange(0, a) == method
            &&& signed.subrange(a, b) == path
            &&& signed.subrange(b, c) == body
            &&& signed.skip(c) == text::digits(timestamp as nat)
        }),
{
    let signed = signed_text(method, path, body, timestamp);
    let a = method.len() as int;
    let b = a + path.len();
    let c = b + body.len();
    assert(signed.subrange(0, a) =~= method);
    assert(signed.subrange(a, b) =~= path);
    assert(signed.subrange(b, c) =~= body);
    assert(signed.skip(c) =~= text::digits(timestamp as nat));
}

/// A secret that is base64 stands for what it denotes, and any other for its own bytes.
pub proof fn secrets_are_base64_or_raw(secret: Seq<char>)
    ensures
        base64_bytes(secret) matches Some(bytes) ==> key_of(base64_bytes(secret), secret) == bytes,
        base64_bytes(secret) is None ==> key_of(base64_bytes(secret), secret)
            == vstd::utf8::encode_utf8(secret),
{
}

} // verus!
