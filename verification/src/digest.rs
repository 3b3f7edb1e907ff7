//! SHA-256 digests, HMAC over them, and their hexadecimal text.

use sha2::Digest;
use subtle::ConstantTimeEq;
use vstd::prelude::*;

verus! {

/// The SHA-256 digest of `data`, as `sha2::Sha256::digest` computes it.
pub uninterp spec fn sha256_of(data: Seq<u8>) -> [u8; 32];

/// `sha2::Sha256::digest`: the digest is a function of the bytes alone. What
/// the thirty-two bytes are is left to the crate.
#[verifier::external_body]
pub(crate) fn sha256(data: &[u8]) -> (r: [u8; 32])
    ensures
        r == sha256_of(data@),
{
    sha2::Sha256::digest(data).into()
}

/// `subtle::ConstantTimeEq::ct_eq` on two digests, as a `bool`: true exactly
/// when every byte is equal. That the comparison takes the same time for all
/// contents is not part of the contract.
#[verifier::external_body]
pub(crate) fn digests_match(a: &[u8; 32], b: &[u8; 32]) -> (r: bool)
    ensures
        r == (a@ == b@),
{
    bool::from(a.ct_eq(b))
}

/// A key of at most a block, filled up with zeros to sixty-four bytes.
pub open spec fn filled(short: Seq<u8>) -> Seq<u8> {
    Seq::new(
        64,
        |i: int|
            if i < short.len() {
                short[i]
            } else {
                0u8
            },
    )
}

/// The key as HMAC uses it: hashed when it is longer than a block, and filled
/// up to a whole block.
pub open spec fn key_block(key: Seq<u8>) -> Seq<u8> {
    if key.len() > 64 {
        filled(sha256_of(key)@)
    } else {
        filled(key)
    }
}

/// Every byte combined with `pad` by exclusive or.
pub open spec fn padded(block: Seq<u8>, pad: u8) -> Seq<u8> {
    block.map_values(|b: u8| b ^ pad)
}

/// HMAC-SHA256 (RFC 2104).
pub open spec fn hmac_of(key: Seq<u8>, message: Seq<u8>) -> Seq<u8> {
    let block = key_block(key);
    sha256_of(padded(block, 0x5c) + sha256_of(padded(block, 0x36) + message)@)@
}

fn append(out: &mut Vec<u8>, bytes: &[u8])
    ensures
        final(out)@ == old(out)@ + bytes@,
{
    let mut i: usize = 0;
    while i < bytes.len()
        invariant
            i <= bytes.len(),
            out@ == old(out)@ + bytes@.take(i as int),
        decreases bytes.len() - i,
    {
        out.push(bytes[i]);
        i = i + 1;
    }
    assert(bytes@.take(i as int) == bytes@);
}

/// Fill a key of at most a block up with zeros to sixty-four bytes.
pub fn fill(short: &[u8]) -> (r: Vec<u8>)
    requires
        short.len() <= 64,
    ensures
        r@ == filled(short@),
{
    let mut block: Vec<u8> = Vec::new();
    append(&mut block, short);
    while block.len() < 64
        invariant
            short.len() <= block.len() <= 64,
            forall|i: int| 0 <= i < short.len() ==> block@[i] == short@[i],
            forall|i: int| short.len() <= i < block.len() ==> block@[i] == 0u8,
        decreases 64 - block.len(),
    {
        block.push(0u8);
    }
    assert(block@ =~= filled(short@));
    block
}

/// Combine every byte with `with` by exclusive or.
pub fn pad(block: &Vec<u8>, with: u8) -> (r: Vec<u8>)
    ensures
        r@ == padded(block@, with),
{
    let mut out: Vec<u8> = Vec::new();
    let mut i: usize = 0;
    while i < block.len()
        invariant
            i <= block.len(),
            out@ == padded(block@.take(i as int), with),
        decreases block.len() - i,
    {
        out.push(block[i] ^ with);
        i = i + 1;
        assert(out@ =~= padded(block@.take(i as int), with));
    }
    assert(block@.take(i as int) == block@);
    out
}

/// HMAC-SHA256 (RFC 2104): the textbook construction in two passes.
pub fn hmac_sha256(key: &[u8], message: &[u8]) -> (r: [u8; 32])
    ensures
        r@ == hmac_of(key@, message@),
{
    let block: Vec<u8> = if key.len() > 64 {
        let digest: [u8; 32] = sha256(key);
        fill(digest.as_slice())
    } else {
        fill(key)
    };
    let mut inner: Vec<u8> = pad(&block, 0x36);
    append(&mut inner, message);
    let inner_digest: [u8; 32] = sha256(inner.as_slice());
    let mut outer: Vec<u8> = pad(&block, 0x5c);
    append(&mut outer, inner_digest.as_slice());
    sha256(outer.as_slice())
}

/// The value of a hexadecimal digit in either case.
pub open spec fn hex_value(b: u8) -> Option<int> {
    if 48 <= b <= 57 {
        Some(b - 48)
    } else if 65 <= b <= 70 {
        Some(b - 55)
    } else if 97 <= b <= 102 {
        Some(b - 87)
    } else {
        None
    }
}

fn hex_digit(b: u8) -> (r: Option<u8>)
    ensures
        r is Some <==> hex_value(b) is Some,
        r matches Some(v) ==> hex_value(b) == Some(v as int) && v < 16,
{
    if 48 <= b && b <= 57 {
        Some(b - 48)
    } else if 65 <= b && b <= 70 {
        Some(b - 55)
    } else if 97 <= b && b <= 102 {
        Some(b - 87)
    } else {
        None
    }
}

/// Whether the bytes are hexadecimal digits.
pub open spec fn all_hex(bytes: Seq<u8>) -> bool {
    forall|i: int| 0 <= i < bytes.len() ==> hex_value(#[trigger] bytes[i]) is Some
}

/// The thirty-two bytes that sixty-four hexadecimal digits stand for.
pub open spec fn hex_decoded(bytes: Seq<u8>) -> Option<Seq<u8>> {
    if bytes.len() == 64 && all_hex(bytes) {
        Some(
            Seq::new(
                32,
                |i: int| (hex_value(bytes[2 * i])->0 * 16 + hex_value(bytes[2 * i + 1])->0) as u8,
            ),
        )
    } else {
        None
    }
}

/// Decode sixty-four hexadecimal digits.
pub fn decode_hex32(hex: &str) -> (r: Option<[u8; 32]>)
    ensures
        r is Some <==> hex_decoded(vstd::utf8::encode_utf8(hex@)) is Some,
        r matches Some(bytes) ==> hex_decoded(vstd::utf8::encode_utf8(hex@)) == Some(bytes@),
{
    let digits: &[u8] = hex.as_bytes();
    if digits.len() != 64 {
        return None;
    }
    let mut bytes: [u8; 32] = [0u8;32];
    let mut i: usize = 0;
    while i < 32
        invariant
            i <= 32,
            digits@ == vstd::utf8::encode_utf8(hex@),
            digits@.len() == 64,
            forall|j: int| 0 <= j < 2 * i ==> hex_value(#[trigger] digits@[j]) is Some,
            forall|j: int|
                0 <= j < i ==> #[trigger] bytes@[j] == (hex_value(digits@[2 * j])->0 * 16
                    + hex_value(digits@[2 * j + 1])->0) as u8,
        decreases 32 - i,
    {
        let high: u8 = match hex_digit(digits[2 * i]) {
            Some(v) => v,
            None => {
                return None;
            },
        };
        let low: u8 = match hex_digit(digits[2 * i + 1]) {
            Some(v) => v,
            None => {
                return None;
            },
        };
        bytes[i] = high * 16 + low;
        i = i + 1;
    }
    assert(hex_decoded(digits@) is Some);
    assert(bytes@ =~= hex_decoded(digits@)->0);
    Some(bytes)
}

/// The lower-case hexadecimal digit for a value below sixteen.
pub open spec fn hex_char(v: int) -> char {
    if v < 10 {
        (48 + v) as char
    } else {
        (87 + v) as char
    }
}

/// Bytes as lower-case hexadecimal text, two digits for each.
pub open spec fn hex_of(bytes: Seq<u8>) -> Seq<char> {
    Seq::new(
        2 * bytes.len(),
        |i: int|
            if i % 2 == 0 {
                hex_char(bytes[i / 2] as int / 16)
            } else {
                hex_char(bytes[i / 2] as int % 16)
            },
    )
}

fn hex_digit_char(v: u8) -> (r: char)
    requires
        v < 16,
    ensures
        r == hex_char(v as int),
{
    let byte: u8 = if v < 10 {
        48 + v
    } else {
        87 + v
    };
    byte as char
}

/// The first `count` bytes of a digest as lower-case hexadecimal text.
pub(crate) fn hex_prefix(bytes: &[u8; 32], count: usize) -> (r: String)
    requires
        count <= 32,
    ensures
        r@ == hex_of(bytes@.take(count as int)),
{
    let mut out: String = String::new();
    let mut i: usize = 0;
    while i < count
        invariant
            i <= count <= 32,
            out@ == hex_of(bytes@.take(i as int)),
        decreases count - i,
    {
        out.push(hex_digit_char(bytes[i] / 16));
        out.push(hex_digit_char(bytes[i] % 16));
        i = i + 1;
        assert(out@ =~= hex_of(bytes@.take(i as int)));
    }
    out
}

proof fn lemma_hex_char(v: int)
    requires
        0 <= v < 16,
    ensures
        (hex_char(v) as u32) < 128,
        hex_value(hex_char(v) as u8) == Some(v),
{
}

proof fn lemma_hex_text(bytes: Seq<u8>, i: int)
    requires
        0 <= i < bytes.len(),
    ensures
        hex_of(bytes)[2 * i] == hex_char(bytes[i] as int / 16),
        hex_of(bytes)[2 * i + 1] == hex_char(bytes[i] as int % 16),
{
    assert((2 * i) % 2 == 0 && (2 * i) / 2 == i);
    assert((2 * i + 1) % 2 == 1 && (2 * i + 1) / 2 == i);
}

proof fn lemma_hex_bytes(bytes: Seq<u8>)
    ensures
        vstd::utf8::encode_utf8(hex_of(bytes)) == hex_of(bytes).map_values(|c: char| c as u8),
{
    let text = hex_of(bytes);
    assert(vstd::utf8::is_ascii_chars(text)) by {
        assert forall|i: int| 0 <= i < text.len() implies '\0' <= #[trigger] text[i] <= '\u{7f}' by {
            lemma_hex_char(bytes[i / 2] as int / 16);
            lemma_hex_char(bytes[i / 2] as int % 16);
        }
    }
    vstd::utf8::is_ascii_chars_encode_utf8(text);
    assert(vstd::utf8::encode_utf8(text) =~= text.map_values(|c: char| c as u8));
}

/// Decoding the hexadecimal text of thirty-two bytes gives the bytes back.
pub proof fn law_hex_reads_back(bytes: Seq<u8>)
    requires
        bytes.len() == 32,
    ensures
        hex_decoded(vstd::utf8::encode_utf8(hex_of(bytes))) == Some(bytes),
{
    let raw = vstd::utf8::encode_utf8(hex_of(bytes));
    lemma_hex_bytes(bytes);
    assert forall|i: int| 0 <= i < raw.len() implies hex_value(#[trigger] raw[i]) is Some by {
        let k = i / 2;
        lemma_hex_text(bytes, k);
        lemma_hex_char(bytes[k] as int / 16);
        lemma_hex_char(bytes[k] as int % 16);
        assert(i == 2 * k || i == 2 * k + 1);
    }
    let out = hex_decoded(raw)->0;
    assert forall|i: int| 0 <= i < 32 implies out[i] == bytes[i] by {
        lemma_hex_text(bytes, i);
        lemma_hex_char(bytes[i] as int / 16);
        lemma_hex_char(bytes[i] as int % 16);
    }
    assert(out =~= bytes);
}

/// HMAC uses a key longer than a block by its digest.
pub proof fn law_long_key_is_hashed(key: Seq<u8>, message: Seq<u8>)
    requires
        key.len() > 64,
    ensures
        hmac_of(key, message) == hmac_of(sha256_of(key)@, message),
{
}

/// HMAC fills a key shorter than a block up with zeros, so one more zero at its
/// end changes nothing.
pub proof fn law_short_key_is_filled(key: Seq<u8>, message: Seq<u8>)
    requires
        key.len() < 64,
    ensures
        hmac_of(key.push(0), message) == hmac_of(key, message),
{
    assert(filled(key.push(0)) =~= filled(key));
}

/// HMAC with a key of one block is the digest of the key under the outer pad and
/// of the digest of the key under the inner pad and the message.
pub proof fn law_hmac_of_a_block(key: Seq<u8>, message: Seq<u8>, outer: Seq<u8>, inner: Seq<u8>)
    requires
        key.len() == 64,
        outer.len() == 64,
        inner.len() == 64,
        forall|i: int| 0 <= i < 64 ==> #[trigger] outer[i] == key[i] ^ 0x5c,
        forall|i: int| 0 <= i < 64 ==> #[trigger] inner[i] == key[i] ^ 0x36,
    ensures
        hmac_of(key, message) == sha256_of(outer + sha256_of(inner + message)@)@,
{
    assert(key_block(key) =~= key);
    assert(padded(key, 0x5c) =~= outer);
    assert(padded(key, 0x36) =~= inner);
}

/// A hexadecimal digit is one of the ten digits or of the first six letters, and
/// capital and small letters have the same value.
pub proof fn law_hex_digits(b: u8, v: int)
    ensures
        0x30 <= b <= 0x39 ==> hex_value(b) == Some(b - 0x30),
        0x61 <= b <= 0x66 ==> hex_value(b) == Some(b - 0x61 + 10),
        0x41 <= b <= 0x46 ==> hex_value(b) == hex_value((b + 0x20) as u8),
        hex_value(b) is Some <==> 0x30 <= b <= 0x39 || 0x61 <= b <= 0x66 || 0x41 <= b <= 0x46,
        0 <= v < 16 ==> hex_value(hex_char(v) as u8) == Some(v),
{
}

/// Sixty-four hexadecimal digits, and nothing else, are decoded: each pair of
/// digits to one byte, the first digit of the pair counting sixteenfold.
pub proof fn law_hex_decoding(digits: Seq<u8>, i: int)
    requires
        0 <= i < 32,
    ensures
        hex_decoded(digits) is Some <==> digits.len() == 64 && forall|j: int|
            0 <= j < digits.len() ==> hex_value(#[trigger] digits[j]) is Some,
        hex_decoded(digits) matches Some(bytes) ==> bytes.len() == 32 && bytes[i] == hex_value(
            digits[2 * i],
        )->0 * 16 + hex_value(digits[2 * i + 1])->0,
{
    if hex_decoded(digits) is Some {
        assert(hex_value(digits[2 * i]) is Some);
        assert(hex_value(digits[2 * i + 1]) is Some);
    }
}

} // verus!
