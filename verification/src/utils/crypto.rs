//! Encryption of stored voice embeddings (AES-256-GCM, random nonce stored in
//! front of the ciphertext) and the hex form in which the key is kept in the
//! OS keychain.
use vstd::prelude::*;

use crate::text::chars::chars_of;
use crate::text::number::decimal_chars;
use aes_gcm::aead::{Aead, AeadCore, KeyInit, OsRng};
use vstd::utf8::encode_utf8;

verus! {

#[verifier::external_type_specification]
#[verifier::external_body]
pub struct ExFromHexError(hex::FromHexError);

#[verifier::external_type_specification]
#[verifier::external_body]
pub struct ExAeadError(aes_gcm::aead::Error);

// ---------------------------------------------------------------------------
// Hex
// ---------------------------------------------------------------------------

/// The value of a hex digit byte (either case).
pub open spec fn hex_value(b: u8) -> Option<u8> {
    if 48 <= b <= 57 {
        Some((b - 48) as u8)
    } else if 65 <= b <= 70 {
        Some((b - 55) as u8)
    } else if 97 <= b <= 102 {
        Some((b - 87) as u8)
    } else {
        None
    }
}

/// The bytes spelled by pairs of hex digits; `None` for an odd length or a
/// byte that is not a hex digit.
pub open spec fn hex_decoded(s: Seq<u8>) -> Option<Seq<u8>>
    decreases s.len(),
{
    if s.len() % 2 != 0 {
        None
    } else if s.len() == 0 {
        Some(seq![])
    } else {
        match (hex_value(s[0]), hex_value(s[1]), hex_decoded(s.skip(2))) {
            (Some(h), Some(l), Some(rest)) => Some(seq![(h * 16 + l) as u8] + rest),
            _ => None,
        }
    }
}

/// The lowercase hex digit for `d < 16`.
pub open spec fn hex_digit(d: u8) -> char {
    if d < 10 {
        ((48 + d) as u8) as char
    } else {
        ((87 + d) as u8) as char
    }
}

/// Two lowercase hex digits per byte, high nibble first.
pub open spec fn hex_encoded(data: Seq<u8>) -> Seq<char>
    decreases data.len(),
{
    if data.len() == 0 {
        seq![]
    } else {
        seq![hex_digit(data[0] / 16), hex_digit(data[0] % 16)] + hex_encoded(data.skip(1))
    }
}

/// Calls `hex::decode` on the UTF-8 bytes of `s`: succeeds exactly when the
/// bytes are pairs of hex digits (either case), giving one byte per pair.
/// The error value is not described.
#[verifier::external_body]
fn hex_decode(s: &str) -> (r: Result<Vec<u8>, hex::FromHexError>)
    ensures
        r is Ok <==> hex_decoded(encode_utf8(s@)) is Some,
        r matches Ok(v) ==> hex_decoded(encode_utf8(s@)) == Some(v@),
{
    hex::decode(s)
}

/// Calls the `Display` implementation of `hex::FromHexError`; the text is not described.
#[verifier::external_body]
fn hex_error_text(e: &hex::FromHexError) -> String {
    format!("{e}")
}

/// Calls `hex::encode`: two lowercase hex digits per byte.
#[verifier::external_body]
fn hex_encode(data: &[u8]) -> (r: String)
    ensures
        r@ == hex_encoded(data@),
{
    hex::encode(data)
}

/// The 32-byte key spelled by `hex`.
pub open spec fn key_of_hex(hex: Seq<char>) -> Option<Seq<u8>> {
    match hex_decoded(encode_utf8(hex)) {
        Some(b) => if b.len() == 32 {
            Some(b)
        } else {
            None
        },
        None => None,
    }
}

/// The message of a key that cannot be read from `hex`: the hex decoder's
/// complaint, or the wrong length in bytes.
pub open spec fn key_error(hex: Seq<char>, e: Seq<char>) -> bool {
    ||| (hex_decoded(encode_utf8(hex)) is None && e.len() >= 28 && e.take(28)
        == "[crypto] key decode failed: "@)
    ||| (hex_decoded(encode_utf8(hex)) matches Some(b) && e == "[crypto] key wrong length: "@
        + crate::text::number::decimal(b.len()) + " bytes"@)
}

/// Reads a key stored as hex. Fails when the text is not hex, or is hex of
/// other than 32 bytes.
pub fn key_from_hex(hex: &str) -> (r: Result<[u8; 32], String>)
    ensures
        r is Ok <==> key_of_hex(hex@) is Some,
        r matches Ok(k) ==> key_of_hex(hex@) == Some(k@),
        r matches Err(e) ==> key_error(hex@, e@),
{
    let bytes = match hex_decode(hex) {
        Ok(b) => b,
        Err(e) => {
            let mut msg = "[crypto] key decode failed: ".to_owned();
            let detail = hex_error_text(&e);
            msg.append(detail.as_str());
            proof {
                reveal_strlit("[crypto] key decode failed: ");
                assert(msg@.take(28) =~= "[crypto] key decode failed: "@);
            }
            return Err(msg);
        },
    };
    if bytes.len() != 32 {
        let mut msg = "[crypto] key wrong length: ".to_owned();
        let digits = decimal_chars(bytes.len() as u64);
        let d = crate::text::chars::string_of(digits.as_slice());
        msg.append(d.as_str());
        msg.append(" bytes");
        return Err(msg);
    }
    let mut key = [0u8; 32];
    let mut i: usize = 0;
    while i < 32
        invariant
            i <= 32,
            bytes@.len() == 32,
            forall|k: int| 0 <= k < i ==> key@[k] == bytes@[k],
        decreases 32 - i,
    {
        key.set(i, bytes[i]);
        i += 1;
    }
    assert(key@ =~= bytes@);
    Ok(key)
}

/// The hex form in which a key is stored.
pub fn key_to_hex(key: &[u8; 32]) -> (r: String)
    ensures
        r@ == hex_encoded(key@),
{
    hex_encode(key.as_slice())
}

proof fn lemma_hex_digit_value(d: u8)
    requires
        d < 16,
    ensures
        (hex_digit(d) as u8) as char == hex_digit(d),
        hex_value(hex_digit(d) as u8) == Some(d),
{
}

proof fn lemma_hex_encoded_len(data: Seq<u8>)
    ensures
        hex_encoded(data).len() == 2 * data.len(),
    decreases data.len(),
{
    if data.len() > 0 {
        lemma_hex_encoded_len(data.skip(1));
    }
}

proof fn lemma_hex_encoded_ascii(data: Seq<u8>)
    ensures
        vstd::utf8::is_ascii_chars(hex_encoded(data)),
        encode_utf8(hex_encoded(data)) == hex_encoded(data).map_values(|c: char| c as u8),
    decreases data.len(),
{
    if data.len() > 0 {
        lemma_hex_encoded_ascii(data.skip(1));
        let e = hex_encoded(data);
        let r = hex_encoded(data.skip(1));
        let h = seq![hex_digit(data[0] / 16), hex_digit(data[0] % 16)];
        assert(e == h + r);
        assert forall|i: int| 0 <= i < e.len() implies (e[i] as u32) < 128 by {
            if i >= 2 {
                assert(e[i] == r[i - 2]);
            }
        }
        assert(vstd::utf8::is_ascii_chars(e));
    }
    vstd::utf8::is_ascii_chars_encode_utf8(hex_encoded(data));
}

proof fn lemma_hex_roundtrip_bytes(data: Seq<u8>)
    ensures
        hex_decoded(hex_encoded(data).map_values(|c: char| c as u8)) == Some(data),
    decreases data.len(),
{
    let e = hex_encoded(data);
    let m = e.map_values(|c: char| c as u8);
    lemma_hex_encoded_len(data);
    if data.len() > 0 {
        let r = hex_encoded(data.skip(1));
        lemma_hex_roundtrip_bytes(data.skip(1));
        lemma_hex_encoded_len(data.skip(1));
        let hi = data[0] / 16;
        let lo = data[0] % 16;
        lemma_hex_digit_value(hi);
        lemma_hex_digit_value(lo);
        assert(e == seq![hex_digit(hi), hex_digit(lo)] + r);
        assert(m.skip(2) =~= r.map_values(|c: char| c as u8));
        assert(m[0] == hex_digit(hi) as u8);
        assert(m[1] == hex_digit(lo) as u8);
        assert(seq![(hi * 16 + lo) as u8] + data.skip(1) =~= data);
    } else {
        assert(m =~= Seq::<u8>::empty());
    }
}

/// A key written in hex reads back as the same key.
pub proof fn lemma_key_hex_roundtrip(key: Seq<u8>)
    requires
        key.len() == 32,
    ensures
        key_of_hex(hex_encoded(key)) == Some(key),
{
    lemma_hex_encoded_ascii(key);
    lemma_hex_roundtrip_bytes(key);
}

// ---------------------------------------------------------------------------
// AES-256-GCM
// ---------------------------------------------------------------------------

/// The largest plaintext AES-GCM accepts, 2^36 bytes.
pub const P_MAX: u64 = 68719476736;

/// What AES-256-GCM (`Aead::encrypt` of `aes_gcm::Aes256Gcm`) makes of
/// `plaintext` under `key` and `nonce`, with no associated data.
pub uninterp spec fn aes256gcm_encrypt(key: Seq<u8>, nonce: Seq<u8>, plaintext: Seq<u8>) -> Seq<u8>;

/// What AES-256-GCM (`Aead::decrypt` of `aes_gcm::Aes256Gcm`) makes of
/// `ciphertext` under `key` and `nonce`; `None` when authentication fails.
pub uninterp spec fn aes256gcm_decrypt(key: Seq<u8>, nonce: Seq<u8>, ciphertext: Seq<u8>) -> Option<Seq<u8>>;

/// Calls `Aead::encrypt` of `Aes256Gcm` with no associated data. It succeeds
/// exactly for plaintexts of at most `P_MAX` bytes; the ciphertext is the
/// plaintext's length plus a 16-byte tag, and decrypting it under the same
/// key and nonce gives the plaintext back.
#[verifier::external_body]
fn aes_encrypt(key: &[u8; 32], nonce: &[u8; 12], plaintext: &[u8]) -> (r: Result<
    Vec<u8>,
    aes_gcm::aead::Error,
>)
    ensures
        r is Ok <==> plaintext@.len() <= P_MAX,
        r matches Ok(c) ==> c@ == aes256gcm_encrypt(key@, nonce@, plaintext@),
        r matches Ok(c) ==> c@.len() == plaintext@.len() + 16,
        r matches Ok(c) ==> aes256gcm_decrypt(key@, nonce@, c@) == Some(plaintext@),
{
    let cipher = aes_gcm::Aes256Gcm::new(aes_gcm::Key::<aes_gcm::Aes256Gcm>::from_slice(key));
    cipher.encrypt(aes_gcm::Nonce::from_slice(nonce), plaintext)
}

/// Calls `Aead::decrypt` of `Aes256Gcm` with no associated data; its result
/// is named by `aes256gcm_decrypt`.
#[verifier::external_body]
fn aes_decrypt(key: &[u8; 32], nonce: &[u8], ciphertext: &[u8]) -> (r: Result<
    Vec<u8>,
    aes_gcm::aead::Error,
>)
    requires
        nonce@.len() == 12,
    ensures
        r matches Ok(p) ==> aes256gcm_decrypt(key@, nonce@, ciphertext@) == Some(p@),
        r is Err ==> aes256gcm_decrypt(key@, nonce@, ciphertext@) is None,
{
    let cipher = aes_gcm::Aes256Gcm::new(aes_gcm::Key::<aes_gcm::Aes256Gcm>::from_slice(key));
    cipher.decrypt(aes_gcm::Nonce::from_slice(nonce), ciphertext)
}

/// Calls `Aes256Gcm::generate_nonce` with the operating system's random
/// number generator: 12 random bytes.
#[verifier::external_body]
fn fresh_nonce() -> (r: [u8; 12]) {
    aes_gcm::Aes256Gcm::generate_nonce(&mut OsRng).into()
}

/// Calls the `Display` implementation of `aead::Error`, which writes "aead::Error".
#[verifier::external_body]
fn aead_error_text(e: &aes_gcm::aead::Error) -> (r: String)
    ensures
        r@ == "aead::Error"@,
{
    format!("{e}")
}

/// The plaintext stored in `data` (nonce, then ciphertext), if it decrypts.
pub open spec fn decryption_of(key: Seq<u8>, data: Seq<u8>) -> Option<Seq<u8>> {
    if data.len() < 12 {
        None
    } else {
        aes256gcm_decrypt(key, data.take(12), data.skip(12))
    }
}

/// `out` is `plaintext` sealed under `key`: a nonce, then the ciphertext of
/// `plaintext` under that nonce.
pub open spec fn sealed(key: Seq<u8>, plaintext: Seq<u8>, out: Seq<u8>) -> bool {
    &&& out.len() == 12 + plaintext.len() + 16
    &&& out.skip(12) == aes256gcm_encrypt(key, out.take(12), plaintext)
    &&& aes256gcm_decrypt(key, out.take(12), out.skip(12)) == Some(plaintext)
}

/// Seals `plaintext` under `key` with the given nonce: the nonce, then the
/// AES-256-GCM ciphertext with its tag.
pub fn seal(key: &[u8; 32], nonce: &[u8; 12], plaintext: &[u8]) -> (r: Result<Vec<u8>, String>)
    ensures
        r is Ok <==> plaintext@.len() <= P_MAX,
        r matches Ok(out) ==> out@ == nonce@ + aes256gcm_encrypt(key@, nonce@, plaintext@),
        r matches Ok(out) ==> sealed(key@, plaintext@, out@),
        r matches Err(e) ==> e@ == "[crypto] encrypt failed: "@ + "aead::Error"@,
{
    match aes_encrypt(key, nonce, plaintext) {
        Ok(ct) => {
            let mut out: Vec<u8> = Vec::new();
            let mut i: usize = 0;
            while i < 12
                invariant
                    i <= 12,
                    out@ == nonce@.take(i as int),
                decreases 12 - i,
            {
                out.push(nonce[i]);
                assert(out@ =~= nonce@.take(i + 1));
                i += 1;
            }
            let mut k: usize = 0;
            while k < ct.len()
                invariant
                    k <= ct@.len(),
                    out@ == nonce@ + ct@.take(k as int),
                decreases ct.len() - k,
            {
                out.push(ct[k]);
                assert(out@ =~= nonce@ + ct@.take(k + 1));
                k += 1;
            }
            assert(ct@.take(ct@.len() as int) =~= ct@);
            assert(out@.take(12) =~= nonce@);
            assert(out@.skip(12) =~= ct@);
            assert(out@ =~= nonce@ + ct@);
            Ok(out)
        },
        Err(e) => {
            let mut msg = "[crypto] encrypt failed: ".to_owned();
            let detail = aead_error_text(&e);
            msg.append(detail.as_str());
            Err(msg)
        },
    }
}

/// Encrypt raw bytes -> returns nonce (12 bytes) prepended to ciphertext.
/// The nonce is drawn at random for each call.
pub fn encrypt(key: &[u8; 32], plaintext: &[u8]) -> (r: Result<Vec<u8>, String>)
    ensures
        r is Ok <==> plaintext@.len() <= P_MAX,
        r matches Ok(out) ==> sealed(key@, plaintext@, out@),
        r matches Err(e) ==> e@ == "[crypto] encrypt failed: "@ + "aead::Error"@,
{
    let nonce = fresh_nonce();
    seal(key, &nonce, plaintext)
}

/// Decrypt -> expects nonce (12 bytes) + ciphertext as produced by encrypt().
pub fn decrypt(key: &[u8; 32], data: &[u8]) -> (r: Result<Vec<u8>, String>)
    ensures
        r matches Ok(p) ==> decryption_of(key@, data@) == Some(p@),
        r is Err <==> decryption_of(key@, data@) is None,
        data@.len() < 12 ==> (r matches Err(e) && e@ == "[crypto] data too short to contain nonce"@),
        data@.len() >= 12 && r is Err ==> (r matches Err(e) && e@ == "[crypto] decrypt failed: "@
            + "aead::Error"@),
{
    if data.len() < 12 {
        return Err("[crypto] data too short to contain nonce".to_owned());
    }
    let nonce_bytes = &data[0..12];
    let ciphertext = &data[12..data.len()];
    assert(nonce_bytes@ =~= data@.take(12));
    assert(ciphertext@ =~= data@.skip(12));
    match aes_decrypt(key, nonce_bytes, ciphertext) {
        Ok(p) => Ok(p),
        Err(e) => {
            let mut msg = "[crypto] decrypt failed: ".to_owned();
            let detail = aead_error_text(&e);
            msg.append(detail.as_str());
            Err(msg)
        },
    }
}

/// What `encrypt` stores, `decrypt` gives back: decrypting sealed bytes under
/// the same key yields the plaintext.
pub proof fn lemma_decrypt_inverts_encrypt(key: Seq<u8>, plaintext: Seq<u8>, out: Seq<u8>)
    requires
        sealed(key, plaintext, out),
    ensures
        decryption_of(key, out) == Some(plaintext),
{
}

/// Calls `rand::random::<[u8; 32]>()`: 32 bytes from the thread-local
/// generator, which the operating system seeds.
#[verifier::external_body]
fn random_key() -> (r: [u8; 32]) {
    rand::random()
}

/// The voice key from the keychain entry `stored` (its hex text), or, when
/// there is none, a new random key. The flag says that the key is new and
/// must be stored.
pub fn load_or_generate_key(stored: Option<&str>) -> (r: Result<([u8; 32], bool), String>)
    ensures
        match stored {
            Some(h) => {
                &&& (r is Ok <==> key_of_hex(h@) is Some)
                &&& (r matches Ok((k, fresh)) ==> !fresh && key_of_hex(h@) == Some(k@))
                &&& (r matches Err(e) ==> key_error(h@, e@))
            },
            None => r matches Ok((_, fresh)) && fresh,
        },
{
    match stored {
        Some(h) => match key_from_hex(h) {
            Ok(k) => Ok((k, false)),
            Err(e) => Err(e),
        },
        None => Ok((random_key(), true)),
    }
}

/// The key cache after offering `key` to it: set when empty, else unchanged.
pub open spec fn slot_after_init(slot: Option<[u8; 32]>, key: [u8; 32]) -> Option<[u8; 32]> {
    match slot {
        Some(k) => Some(k),
        None => Some(key),
    }
}

/// Caches the voice key. Safe to call again: when a key is cached already,
/// the call does nothing and keeps that key.
pub fn init_voice_key(slot: &mut Option<[u8; 32]>, key: [u8; 32]) -> (r: Result<(), String>)
    ensures
        *final(slot) == slot_after_init(*old(slot), key),
        r is Ok,
{
    if slot.is_none() {
        *slot = Some(key);
    }
    Ok(())
}

/// The cached voice key. The cache must have been filled first.
pub fn get_voice_key(slot: &Option<[u8; 32]>) -> (r: [u8; 32])
    requires
        slot.is_some(),
    ensures
        Some(r) == *slot,
{
    match slot {
        Some(k) => *k,
        None => [0u8; 32],
    }
}

/// The first key cached stays: offering a second key changes nothing.
pub proof fn lemma_first_key_stays(k1: [u8; 32], k2: [u8; 32])
    ensures
        slot_after_init(slot_after_init(None, k1), k2) == Some(k1),
{
}

} // verus!
