//! Encryption of stored secret keys with AES-256-GCM: the stored form is
//! `nonce || ciphertext`, the key is kept as base64 text, and the additional
//! authenticated data binds a secret to its owner.
use aes_gcm::aead::{Aead, Payload};
use aes_gcm::{Aes256Gcm, KeyInit};
use vstd::prelude::*;
use vstd::slice::{slice_subrange, slice_to_vec};
use vstd::string::StringSliceAdditionalSpecFns;
use vstd::utf8::{decode_utf8, encode_utf8, valid_utf8};

use crate::bootstrapper::random_index_below;
use crate::key::{base64_decode, base64_standard, base64_standard_decode};

verus! {

broadcast use vstd::utf8::encode_utf8_valid_utf8, vstd::utf8::encode_utf8_decode_utf8;

/// The AES-256-GCM sealing of `msg` under `key` and `nonce` with additional
/// data `aad`: ciphertext followed by the 16-byte tag, or none when the
/// lengths exceed the cipher's limits.
pub uninterp spec fn aes256gcm_seal(key: Seq<u8>, nonce: Seq<u8>, msg: Seq<u8>, aad: Seq<u8>) -> Option<Seq<u8>>;

/// The AES-256-GCM opening of `ct` under `key` and `nonce` with additional
/// data `aad`: the message, or none when the tag does not authenticate.
pub uninterp spec fn aes256gcm_open(key: Seq<u8>, nonce: Seq<u8>, ct: Seq<u8>, aad: Seq<u8>) -> Option<Seq<u8>>;

/// Encrypts with `Aes256Gcm::encrypt` under a `Payload` of the message and
/// the additional data, the error rendered as text. Stated: the result is
/// named `aes256gcm_seal`; a ciphertext is the message's length plus the
/// 16-byte tag that `encrypt` appends; and opening it with the same key,
/// nonce and data gives the message back. The error text is not stated.
#[verifier::external_body]
fn aes_encrypt(key: &[u8], nonce: &[u8], msg: &[u8], aad: &[u8]) -> (r: Result<Vec<u8>, String>)
    requires
        key@.len() == 32,
        nonce@.len() == 12,
    ensures
        match r {
            Ok(c) => {
                &&& aes256gcm_seal(key@, nonce@, msg@, aad@) == Some(c@)
                &&& c@.len() == msg@.len() + 16
                &&& aes256gcm_open(key@, nonce@, c@, aad@) == Some(msg@)
            },
            Err(_) => aes256gcm_seal(key@, nonce@, msg@, aad@) is None,
        },
{
    let cipher = Aes256Gcm::new(aes_gcm::Key::<Aes256Gcm>::from_slice(key));
    cipher.encrypt(aes_gcm::Nonce::from_slice(nonce), Payload { msg, aad }).map_err(|e| e.to_string())
}

/// Decrypts with `Aes256Gcm::decrypt` under a `Payload` of the ciphertext and
/// the additional data, the error rendered as text. Stated: the result is
/// named `aes256gcm_open`. The error text is not stated.
#[verifier::external_body]
fn aes_decrypt(key: &[u8], nonce: &[u8], ct: &[u8], aad: &[u8]) -> (r: Result<Vec<u8>, String>)
    requires
        key@.len() == 32,
        nonce@.len() == 12,
    ensures
        match r {
            Ok(p) => aes256gcm_open(key@, nonce@, ct@, aad@) == Some(p@),
            Err(_) => aes256gcm_open(key@, nonce@, ct@, aad@) is None,
        },
{
    let cipher = Aes256Gcm::new(aes_gcm::Key::<Aes256Gcm>::from_slice(key));
    cipher.decrypt(aes_gcm::Nonce::from_slice(nonce), Payload { msg: ct, aad }).map_err(|e| e.to_string())
}

/// Converts bytes to text with `String::from_utf8`, the error rendered as
/// text. Stated, as its documentation says: it succeeds exactly on valid
/// UTF-8, giving the characters those bytes encode. The error text is not stated.
#[verifier::external_body]
fn utf8_to_string(bytes: Vec<u8>) -> (r: Result<String, String>)
    ensures
        r is Ok <==> valid_utf8(bytes@),
        r matches Ok(s) ==> s@ == decode_utf8(bytes@),
{
    String::from_utf8(bytes).map_err(|e| e.to_string())
}

/// Draws a 12-byte nonce with `rand::random::<[u8; 12]>`. Stated: the nonce
/// is 12 bytes long; its bytes are random.
#[verifier::external_body]
fn random_nonce() -> (n: Vec<u8>)
    ensures
        n@.len() == 12,
{
    rand::random::<[u8; 12]>().to_vec()
}

/// Why decrypting a stored secret failed.
pub enum DecryptFailure {
    TooShort,
    KeyDecode,
    NotUtf8,
    Decrypt,
}

/// The beginning of the message of each decryption failure (for a short
/// ciphertext, the whole message).
pub open spec fn decrypt_failure_text(f: DecryptFailure) -> Seq<char> {
    match f {
        DecryptFailure::TooShort => "ciphertext too short (need at least 12-byte nonce + 16-byte auth tag)"@,
        DecryptFailure::KeyDecode => "decode encryption key: "@,
        DecryptFailure::NotUtf8 => "decrypted secret is not valid UTF-8: "@,
        DecryptFailure::Decrypt => "decrypt: "@,
    }
}

/// True when `m` reports the failure `f`.
pub open spec fn reports(m: Seq<char>, f: DecryptFailure) -> bool {
    match f {
        DecryptFailure::TooShort => m == decrypt_failure_text(f),
        _ => decrypt_failure_text(f).is_prefix_of(m),
    }
}

/// True when the key text either does not decode or decodes to 32 bytes,
/// the key size of AES-256.
pub open spec fn key_fits(key_text: Seq<char>) -> bool {
    match base64_standard_decode(key_text) {
        Some(k) => k.len() == 32,
        None => true,
    }
}

/// The text of decrypted bytes, when they are valid UTF-8.
pub open spec fn utf8_outcome(b: Seq<u8>) -> Result<Seq<char>, DecryptFailure> {
    if valid_utf8(b) {
        Ok(decode_utf8(b))
    } else {
        Err(DecryptFailure::NotUtf8)
    }
}

/// The secret that `nonce || ciphertext` holds under the key text and the
/// additional data `aad`, trying `aad` first and then no additional data
/// (the form written before additional data was used); or why it fails.
pub open spec fn spec_decrypt_secret(encrypted: Seq<u8>, key_text: Seq<char>, aad: Seq<char>) -> Result<
    Seq<char>,
    DecryptFailure,
> {
    if encrypted.len() < 28 {
        Err(DecryptFailure::TooShort)
    } else {
        match base64_standard_decode(key_text) {
            None => Err(DecryptFailure::KeyDecode),
            Some(k) => {
                let nonce = encrypted.take(12);
                let ct = encrypted.skip(12);
                match aes256gcm_open(k, nonce, ct, encode_utf8(aad)) {
                    Some(p) => utf8_outcome(p),
                    None => match aes256gcm_open(k, nonce, ct, seq![]) {
                        Some(p) => utf8_outcome(p),
                        None => Err(DecryptFailure::Decrypt),
                    },
                }
            },
        }
    }
}

fn prefixed(prefix: &str, detail: &str) -> (m: String)
    ensures
        m@ == prefix@ + detail@,
        prefix@.is_prefix_of(m@),
{
    let mut m = prefix.to_owned();
    m.append(detail);
    assert(m@.take(prefix@.len() as int) =~= prefix@);
    m
}

fn utf8_result(p: Vec<u8>) -> (r: Result<String, String>)
    ensures
        match r {
            Ok(s) => utf8_outcome(p@) == Ok::<Seq<char>, DecryptFailure>(s@),
            Err(m) => utf8_outcome(p@) matches Err(f) && reports(m@, f),
        },
{
    let ghost b = p@;
    match utf8_to_string(p) {
        Ok(s) => Ok(s),
        Err(e) => {
            proof {
                reveal_strlit("decrypted secret is not valid UTF-8: ");
            }
            Err(prefixed("decrypted secret is not valid UTF-8: ", e.as_str()))
        },
    }
}

/// Decrypt a secret key from `nonce || ciphertext` using the base64-encoded
/// encryption key. `aad` must match the value used during encryption; a
/// secret written without additional data is still read.
pub fn decrypt_secret(encrypted: &[u8], key_b64: &str, aad: &str) -> (r: Result<String, String>)
    requires
        encrypted@.len() < 28 || key_fits(key_b64@),
    ensures
        match r {
            Ok(s) => spec_decrypt_secret(encrypted@, key_b64@, aad@) == Ok::<Seq<char>, DecryptFailure>(s@),
            Err(m) => spec_decrypt_secret(encrypted@, key_b64@, aad@) matches Err(f) && reports(m@, f),
        },
{
    proof {
        reveal_strlit("ciphertext too short (need at least 12-byte nonce + 16-byte auth tag)");
        reveal_strlit("decode encryption key: ");
        reveal_strlit("decrypt: ");
    }
    if encrypted.len() < 28 {
        return Err("ciphertext too short (need at least 12-byte nonce + 16-byte auth tag)".to_owned());
    }
    let key_bytes = match base64_decode(key_b64) {
        Ok(k) => k,
        Err(e) => {
            return Err(prefixed("decode encryption key: ", e.as_str()));
        },
    };
    let nonce = slice_subrange(encrypted, 0, 12);
    let ct = slice_subrange(encrypted, 12, encrypted.len());
    assert(nonce@ =~= encrypted@.take(12));
    assert(ct@ =~= encrypted@.skip(12));
    let aad_bytes = aad.as_bytes();
    match aes_decrypt(key_bytes.as_slice(), nonce, ct, aad_bytes) {
        Ok(p) => {
            return utf8_result(p);
        },
        Err(_) => {},
    }
    let empty: Vec<u8> = Vec::new();
    assert(empty@ =~= Seq::<u8>::empty());
    match aes_decrypt(key_bytes.as_slice(), nonce, ct, empty.as_slice()) {
        Ok(p) => utf8_result(p),
        Err(e) => Err(prefixed("decrypt: ", e.as_str())),
    }
}

/// Decrypts as `decrypt_secret` does when the key text fits; answers `None`,
/// decrypting nothing, when it decodes to a key of another size.
pub fn decrypt_secret_checked(encrypted: &[u8], key_b64: &str, aad: &str) -> (r: Option<Result<String, String>>)
    ensures
        r is None <==> !(encrypted@.len() < 28 || key_fits(key_b64@)),
        r matches Some(res) ==> match res {
            Ok(s) => spec_decrypt_secret(encrypted@, key_b64@, aad@) == Ok::<Seq<char>, DecryptFailure>(s@),
            Err(m) => spec_decrypt_secret(encrypted@, key_b64@, aad@) matches Err(f) && reports(m@, f),
        },
{
    if encrypted.len() >= 28 {
        match base64_decode(key_b64) {
            Ok(k) => {
                if k.len() != 32 {
                    return None;
                }
            },
            Err(_) => {},
        }
    }
    Some(decrypt_secret(encrypted, key_b64, aad))
}

/// The beginning of the message of a key that does not decode, on encryption.
pub open spec fn key_decode_text() -> Seq<char> {
    "decode encryption key: "@
}

/// The beginning of the message of a failed encryption.
pub open spec fn encrypt_failure_text() -> Seq<char> {
    "encrypt: "@
}

/// Encrypt a secret under the base64-encoded encryption key with a fresh
/// random nonce, binding it to `aad`; the result is `nonce || ciphertext`,
/// and decrypting it with the same key and `aad` gives the secret back.
pub fn encrypt_secret(plaintext: &str, key_b64: &str, aad: &str) -> (r: Result<Vec<u8>, String>)
    requires
        key_fits(key_b64@),
    ensures
        match r {
            Ok(e) => {
                &&& base64_standard_decode(key_b64@) matches Some(k) && exists|nonce: Seq<u8>|
                    nonce.len() == 12 && #[trigger] aes256gcm_seal(
                        k,
                        nonce,
                        encode_utf8(plaintext@),
                        encode_utf8(aad@),
                    ) == Some(e@.skip(12)) && e@.take(12) == nonce
                &&& spec_decrypt_secret(e@, key_b64@, aad@) == Ok::<Seq<char>, DecryptFailure>(plaintext@)
            },
            Err(m) => {
                ||| base64_standard_decode(key_b64@) is None && key_decode_text().is_prefix_of(m@)
                ||| base64_standard_decode(key_b64@) matches Some(k) && encrypt_failure_text().is_prefix_of(m@)
                    && exists|nonce: Seq<u8>|
                    nonce.len() == 12 && #[trigger] aes256gcm_seal(
                        k,
                        nonce,
                        encode_utf8(plaintext@),
                        encode_utf8(aad@),
                    ) is None
            },
        },
{
    proof {
        reveal_strlit("decode encryption key: ");
        reveal_strlit("encrypt: ");
    }
    let key_bytes = match base64_decode(key_b64) {
        Ok(k) => k,
        Err(e) => {
            return Err(prefixed("decode encryption key: ", e.as_str()));
        },
    };
    let nonce = random_nonce();
    let msg = plaintext.as_bytes();
    let aad_bytes = aad.as_bytes();
    let ct = match aes_encrypt(key_bytes.as_slice(), nonce.as_slice(), msg, aad_bytes) {
        Ok(c) => c,
        Err(e) => {
            return Err(prefixed("encrypt: ", e.as_str()));
        },
    };
    let mut result = slice_to_vec(nonce.as_slice());
    let mut i: usize = 0;
    while i < ct.len()
        invariant
            nonce@.len() == 12,
            i <= ct@.len(),
            result@ == nonce@ + ct@.take(i as int),
        decreases ct@.len() - i,
    {
        result.push(ct[i]);
        assert(ct@.take(i + 1) =~= ct@.take(i as int).push(ct@[i as int]));
        i += 1;
    }
    proof {
        assert(ct@.take(ct@.len() as int) =~= ct@);
        assert(result@.take(12) =~= nonce@);
        assert(result@.skip(12) =~= ct@);
        assert(aes256gcm_seal(key_bytes@, nonce@, encode_utf8(plaintext@), encode_utf8(aad@)) == Some(
            result@.skip(12),
        ));
    }
    Ok(result)
}

/// Encrypts as `encrypt_secret` does when the key text fits; answers `None`,
/// encrypting nothing, when it decodes to a key of another size.
pub fn encrypt_secret_checked(plaintext: &str, key_b64: &str, aad: &str) -> (r: Option<Result<Vec<u8>, String>>)
    ensures
        r is None <==> !key_fits(key_b64@),
        r matches Some(Ok(e)) ==> spec_decrypt_secret(e@, key_b64@, aad@) == Ok::<Seq<char>, DecryptFailure>(
            plaintext@,
        ),
{
    match base64_decode(key_b64) {
        Ok(k) => {
            if k.len() != 32 {
                return None;
            }
        },
        Err(_) => {},
    }
    Some(encrypt_secret(plaintext, key_b64, aad))
}

/// Draws `count` characters uniformly from `charset` and appends them to `out`.
fn push_random_chars(out: &mut String, charset: &str, count: usize)
    requires
        vstd::string::is_ascii(charset),
        charset@.len() > 0,
    ensures
        final(out)@.len() == old(out)@.len() + count,
        final(out)@.take(old(out)@.len() as int) == old(out)@,
        forall|i: int| old(out)@.len() <= i < final(out)@.len() ==> charset@.contains(#[trigger] final(out)@[i]),
{
    let ghost start = out@;
    let n = charset.unicode_len();
    let mut k: usize = 0;
    while k < count
        invariant
            vstd::string::is_ascii(charset),
            n == charset@.len(),
            n > 0,
            k <= count,
            out@.len() == start.len() + k,
            out@.take(start.len() as int) == start,
            forall|i: int| start.len() <= i < out@.len() ==> charset@.contains(#[trigger] out@[i]),
        decreases count - k,
    {
        let idx = random_index_below(n);
        let piece = charset.substring_ascii(idx, idx + 1);
        let ghost before = out@;
        out.append(piece);
        proof {
            assert(piece@ =~= seq![charset@[idx as int]]);
            assert(out@.take(start.len() as int) =~= before.take(start.len() as int));
            assert forall|i: int| start.len() <= i < out@.len() implies charset@.contains(#[trigger] out@[i]) by {
                if i < before.len() {
                    assert(out@[i] == before[i]);
                } else {
                    assert(out@[i] == charset@[idx as int]);
                }
            }
        }
        k += 1;
    }
}

/// Generate an access key id: `AKIAEXTENDDB` followed by eight characters
/// drawn from the upper-case letters and digits.
pub fn generate_access_key_id() -> (id: String)
    ensures
        id@.len() == 20,
        id@.take(12) == "AKIAEXTENDDB"@,
        forall|i: int| 12 <= i < 20 ==> "ABCDEFGHIJKLMNOPQRSTUVWXYZ0123456789"@.contains(#[trigger] id@[i]),
{
    let charset = "ABCDEFGHIJKLMNOPQRSTUVWXYZ0123456789";
    proof {
        reveal_strlit("ABCDEFGHIJKLMNOPQRSTUVWXYZ0123456789");
        reveal_strlit("AKIAEXTENDDB");
        assert(forall|i: int| 0 <= i < 36 ==> '\0' <= #[trigger] charset@[i] <= '\u{7f}');
    }
    let mut id = "AKIAEXTENDDB".to_owned();
    push_random_chars(&mut id, charset, 8);
    id
}

/// Generate a secret access key: `extenddb` followed by 32 characters drawn
/// from the base64 alphabet.
pub fn generate_secret_key() -> (key: String)
    ensures
        key@.len() == 40,
        key@.take(8) == "extenddb"@,
        forall|i: int| 8 <= i < 40 ==> "ABCDEFGHIJKLMNOPQRSTUVWXYZabcdefghijklmnopqrstuvwxyz0123456789+/"@.contains(
            #[trigger] key@[i],
        ),
{
    let charset = "ABCDEFGHIJKLMNOPQRSTUVWXYZabcdefghijklmnopqrstuvwxyz0123456789+/";
    proof {
        reveal_strlit("ABCDEFGHIJKLMNOPQRSTUVWXYZabcdefghijklmnopqrstuvwxyz0123456789+/");
        reveal_strlit("extenddb");
        assert(forall|i: int| 0 <= i < 64 ==> '\0' <= #[trigger] charset@[i] <= '\u{7f}');
    }
    let mut key = "extenddb".to_owned();
    push_random_chars(&mut key, charset, 32);
    key
}

} // verus!
