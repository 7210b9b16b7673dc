//! Decryption of encrypted Feishu event payloads: base64, a SHA-256 key,
//! AES-256 in CBC mode with the IV in front, PKCS#7 padding and UTF-8 text.
//! The block cipher, the digest and the base64 decoder are the outside
//! crates'; the chaining, the padding and the checks are proved here.
use vstd::prelude::*;
use vstd::utf8::{encode_utf8, valid_utf8};
use crate::text::{owned, push_str};
use aes::cipher::{BlockDecrypt, KeyInit};
use base64::Engine;
use sha2::Digest;

verus! {

/// The bytes that standard base64 (with padding) decodes `s` to, or `None`
/// when `s` is not valid standard base64.
pub uninterp spec fn base64_standard_decoded(s: Seq<char>) -> Option<Seq<u8>>;

/// `base64::engine::general_purpose::STANDARD.decode`: the decoded bytes,
/// or the decoder's error text. Which inputs it accepts is named by
/// `base64_standard_decoded`; the error text is not stated.
#[verifier::external_body]
fn base64_decode(s: &str) -> (r: Result<Vec<u8>, String>)
    ensures
        r is Ok <==> base64_standard_decoded(s@) is Some,
        r matches Ok(b) ==> base64_standard_decoded(s@) == Some(b@),
{
    match base64::engine::general_purpose::STANDARD.decode(s) {
        Ok(b) => Ok(b),
        Err(e) => Err(e.to_string()),
    }
}

/// The SHA-256 digest of `data`.
pub uninterp spec fn sha256(data: Seq<u8>) -> Seq<u8>;

/// `sha2::Sha256::digest`: the SHA-256 digest of `data`, 32 bytes.
#[verifier::external_body]
fn sha256_digest(data: &[u8]) -> (r: Vec<u8>)
    ensures
        r@ == sha256(data@),
        r@.len() == 32,
{
    sha2::Sha256::digest(data).to_vec()
}

/// The AES-256 decryption of one 16-byte block under a 32-byte key.
pub uninterp spec fn aes256_decrypt(key: Seq<u8>, block: Seq<u8>) -> Seq<u8>;

/// `aes::Aes256::new` then `decrypt_block`: decrypts one 16-byte block under
/// a 32-byte key, giving 16 bytes.
#[verifier::external_body]
fn aes256_decrypt_block(key: &[u8], block: &[u8]) -> (r: Vec<u8>)
    requires
        key@.len() == 32,
        block@.len() == 16,
    ensures
        r@ == aes256_decrypt(key@, block@),
        r@.len() == 16,
{
    let cipher = aes::Aes256::new(aes::cipher::generic_array::GenericArray::from_slice(key));
    let mut b = aes::cipher::generic_array::GenericArray::clone_from_slice(block);
    cipher.decrypt_block(&mut b);
    b.to_vec()
}

/// `String::from_utf8`: the text of `bytes` when they are valid UTF-8,
/// else the error's text (not stated).
#[verifier::external_body]
fn utf8_string(bytes: Vec<u8>) -> (r: Result<String, String>)
    ensures
        r is Ok <==> valid_utf8(bytes@),
        r matches Ok(s) ==> encode_utf8(s@) == bytes@,
{
    match String::from_utf8(bytes) {
        Ok(s) => Ok(s),
        Err(e) => Err(e.to_string()),
    }
}

/// The bytewise XOR of two 16-byte blocks.
pub open spec fn xor16(a: Seq<u8>, b: Seq<u8>) -> Seq<u8> {
    Seq::new(16, |i: int| a[i] ^ b[i])
}

/// CBC decryption of `ct` (whole 16-byte blocks) under `key`, chained from `iv`.
pub open spec fn cbc_decrypt(key: Seq<u8>, iv: Seq<u8>, ct: Seq<u8>) -> Seq<u8>
    decreases ct.len(),
{
    if ct.len() < 16 {
        seq![]
    } else {
        xor16(aes256_decrypt(key, ct.take(16)), iv) + cbc_decrypt(key, ct.take(16), ct.skip(16))
    }
}

/// AES-256-CBC decryption of whole blocks, chained from `iv`.
pub fn decrypt_aes256_cbc(ciphertext: &[u8], key: &[u8], iv: &[u8]) -> (r: Result<Vec<u8>, String>)
    requires
        key@.len() == 32,
        iv@.len() == 16,
        ciphertext@.len() % 16 == 0,
    ensures
        r matches Ok(p) && p@ == cbc_decrypt(key@, iv@, ciphertext@),
{
    let mut plaintext: Vec<u8> = Vec::new();
    let mut previous: Vec<u8> = slice_range(iv, 0, 16);
    assert(previous@ =~= iv@);
    let mut k: usize = 0;
    assert(ciphertext@.skip(0) =~= ciphertext@);
    while k < ciphertext.len()
        invariant
            key@.len() == 32,
            ciphertext@.len() % 16 == 0,
            k % 16 == 0,
            k <= ciphertext@.len(),
            previous@.len() == 16,
            plaintext@ + cbc_decrypt(key@, previous@, ciphertext@.skip(k as int)) == cbc_decrypt(
                key@,
                iv@,
                ciphertext@,
            ),
        decreases ciphertext.len() - k,
    {
        let chunk = slice_range(ciphertext, k, k + 16);
        let block = aes256_decrypt_block(key, chunk.as_slice());
        let ghost rest = ciphertext@.skip(k as int);
        assert(rest.take(16) =~= chunk@);
        assert(rest.skip(16) =~= ciphertext@.skip(k + 16));
        let mut i: usize = 0;
        let ghost before = plaintext@;
        while i < 16
            invariant
                i <= 16,
                block@.len() == 16,
                previous@.len() == 16,
                plaintext@ == before + xor16(block@, previous@).take(i as int),
            decreases 16 - i,
        {
            plaintext.push(block[i] ^ previous[i]);
            assert(xor16(block@, previous@).take(i + 1) =~= xor16(block@, previous@).take(
                i as int,
            ).push(block@[i as int] ^ previous@[i as int]));
            i += 1;
        }
        assert(xor16(block@, previous@).take(16) =~= xor16(block@, previous@));
        assert(plaintext@ + cbc_decrypt(key@, chunk@, ciphertext@.skip(k + 16)) =~= before
            + cbc_decrypt(key@, previous@, rest));
        previous = chunk;
        k = k + 16;
    }
    assert(ciphertext@.skip(k as int).len() == 0);
    assert(plaintext@ + seq![] =~= plaintext@);
    Ok(plaintext)
}

/// `s[a..b]` as a vector.
fn slice_range(s: &[u8], a: usize, b: usize) -> (r: Vec<u8>)
    requires
        a <= b <= s@.len(),
    ensures
        r@ == s@.subrange(a as int, b as int),
{
    let mut r: Vec<u8> = Vec::new();
    let mut i = a;
    while i < b
        invariant
            a <= i <= b <= s@.len(),
            r@ == s@.subrange(a as int, i as int),
        decreases b - i,
    {
        r.push(s[i]);
        assert(s@.subrange(a as int, i + 1) =~= s@.subrange(a as int, i as int).push(s@[i as int]));
        i += 1;
    }
    r
}

/// Whether `p` ends in valid PKCS#7 padding of 1 to 16 bytes.
pub open spec fn padding_ok(p: Seq<u8>) -> bool {
    let n = p.last() as int;
    &&& p.len() > 0
    &&& 1 <= n <= 16
    &&& n <= p.len()
    &&& forall|i: int| 0 <= i < n ==> #[trigger] p[p.len() - 1 - i] == n
}

/// Whether `p` (at least one block long) ends in valid PKCS#7 padding.
fn pkcs7_padding_valid(p: &[u8]) -> (r: bool)
    requires
        p@.len() >= 16,
    ensures
        r == padding_ok(p@),
{
    let n = p.len();
    let padding_len = p[n - 1] as usize;
    if padding_len == 0 || padding_len > 16 {
        return false;
    }
    let mut i: usize = 0;
    while i < padding_len
        invariant
            n == p@.len(),
            n >= 16,
            1 <= padding_len <= 16,
            padding_len == p@[n - 1],
            i <= padding_len,
            forall|j: int| 0 <= j < i ==> #[trigger] p@[n - 1 - j] == padding_len,
        decreases padding_len - i,
    {
        if p[n - 1 - i] != padding_len as u8 {
            return false;
        }
        i += 1;
    }
    true
}

/// `p` without its padding.
pub open spec fn unpadded(p: Seq<u8>) -> Seq<u8> {
    p.take(p.len() - p.last() as int)
}

/// The AES key for an encrypt key: the SHA-256 of its UTF-8 bytes.
pub open spec fn feishu_aes_key(encrypt_key: Seq<char>) -> Seq<u8> {
    sha256(encode_utf8(encrypt_key))
}

/// The decrypted (still padded) bytes of a decoded payload: the first 16
/// bytes are the IV, the rest the ciphertext.
pub open spec fn feishu_decrypted(bytes: Seq<u8>, encrypt_key: Seq<char>) -> Seq<u8> {
    cbc_decrypt(feishu_aes_key(encrypt_key), bytes.take(16), bytes.skip(16))
}

/// Whether a decoded payload has a valid length: more than one block, whole blocks.
pub open spec fn payload_length_ok(bytes: Seq<u8>) -> bool {
    bytes.len() > 16 && bytes.len() % 16 == 0
}

/// Whether an encrypted payload decrypts under a key: it is base64, of a
/// valid length, with valid padding and UTF-8 plaintext.
pub open spec fn feishu_decrypt_succeeds(encrypted: Seq<char>, encrypt_key: Seq<char>) -> bool {
    base64_standard_decoded(encrypted) matches Some(b) && payload_length_ok(b) && padding_ok(
        feishu_decrypted(b, encrypt_key),
    ) && valid_utf8(unpadded(feishu_decrypted(b, encrypt_key)))
}

/// Whether `plain` is the plaintext of an encrypted payload under a key.
pub open spec fn feishu_plaintext(encrypted: Seq<char>, encrypt_key: Seq<char>, plain: Seq<char>) -> bool {
    base64_standard_decoded(encrypted) matches Some(b) && encode_utf8(plain) == unpadded(
        feishu_decrypted(b, encrypt_key),
    )
}

/// Whether `s` starts with `prefix`.
pub open spec fn has_prefix(s: Seq<char>, prefix: Seq<char>) -> bool {
    prefix.len() <= s.len() && s.take(prefix.len() as int) == prefix
}

/// Decrypts an encrypted Feishu payload: base64, then AES-256-CBC under the
/// SHA-256 of the encrypt key with the IV in the first 16 bytes, then PKCS#7
/// padding, then UTF-8.
pub fn decrypt_feishu_payload(encrypted_base64: &str, encrypt_key: &str) -> (r: Result<String, String>)
    ensures
        base64_standard_decoded(encrypted_base64@) is None ==> (r matches Err(e) && has_prefix(
            e@,
            "base64 decode failed: "@,
        )),
        base64_standard_decoded(encrypted_base64@) matches Some(b) ==> {
            let d = feishu_decrypted(b, encrypt_key@);
            &&& !payload_length_ok(b) ==> (r matches Err(e) && e@ == "encrypted payload length invalid"@)
            &&& payload_length_ok(b) && !padding_ok(d) ==> (r matches Err(e) && e@ == "invalid padding"@)
            &&& payload_length_ok(b) && padding_ok(d) && !valid_utf8(unpadded(d)) ==> (r matches Err(e)
                && has_prefix(e@, "utf8 decode failed: "@))
            &&& payload_length_ok(b) && padding_ok(d) && valid_utf8(unpadded(d)) ==> (r matches Ok(s)
                && encode_utf8(s@) == unpadded(d))
        },
{
    let encrypted_bytes = match base64_decode(encrypted_base64) {
        Ok(b) => b,
        Err(e) => {
            let mut msg = owned("base64 decode failed: ");
            push_str(&mut msg, e.as_str());
            proof {
                reveal_strlit("base64 decode failed: ");
            }
            assert(msg@.take("base64 decode failed: "@.len() as int) =~= "base64 decode failed: "@);
            return Err(msg);
        },
    };
    if encrypted_bytes.len() <= 16 || encrypted_bytes.len() % 16 != 0 {
        return Err(owned("encrypted payload length invalid"));
    }
    let iv = slice_range(encrypted_bytes.as_slice(), 0, 16);
    let ciphertext = slice_range(encrypted_bytes.as_slice(), 16, encrypted_bytes.len());
    assert(iv@ =~= encrypted_bytes@.take(16));
    assert(ciphertext@ =~= encrypted_bytes@.skip(16));
    let key = sha256_digest(encrypt_key.as_bytes());
    let result = match decrypt_aes256_cbc(ciphertext.as_slice(), key.as_slice(), iv.as_slice()) {
        Ok(p) => p,
        Err(e) => {
            let mut msg = owned("decrypt failed: ");
            push_str(&mut msg, e.as_str());
            return Err(msg);
        },
    };
    let ghost d = feishu_decrypted(encrypted_bytes@, encrypt_key@);
    assert(result@ == d);
    proof {
        lemma_cbc_len(key@, iv@, ciphertext@);
    }
    let n = result.len();
    if !pkcs7_padding_valid(result.as_slice()) {
        return Err(owned("invalid padding"));
    }
    let padding_len = result[n - 1] as usize;
    assert(padding_ok(result@));
    let plaintext = slice_range(result.as_slice(), 0, n - padding_len);
    assert(plaintext@ =~= unpadded(result@));
    match utf8_string(plaintext) {
        Ok(s) => Ok(s),
        Err(e) => {
            let mut msg = owned("utf8 decode failed: ");
            push_str(&mut msg, e.as_str());
            proof {
                reveal_strlit("utf8 decode failed: ");
            }
            assert(msg@.take("utf8 decode failed: "@.len() as int) =~= "utf8 decode failed: "@);
            Err(msg)
        },
    }
}

/// Lemma: CBC decryption of whole blocks is as long as the ciphertext.
pub proof fn lemma_cbc_len(key: Seq<u8>, iv: Seq<u8>, ct: Seq<u8>)
    requires
        ct.len() % 16 == 0,
    ensures
        cbc_decrypt(key, iv, ct).len() == ct.len(),
    decreases ct.len(),
{
    if ct.len() >= 16 {
        lemma_cbc_len(key, ct.take(16), ct.skip(16));
    }
}

} // verus!
