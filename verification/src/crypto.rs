//! Key derivation, authenticated encryption and the random transfer password.
use argon2::Argon2;
use chacha20poly1305::aead::{Aead, KeyInit};
use chacha20poly1305::{Key, XChaCha20Poly1305, XNonce};
use rand::distr::Alphanumeric;
use rand::RngExt;
use rand_core::{OsRng, RngCore};
use vstd::prelude::*;
use vstd::string::*;
use vstd::utf8::encode_utf8;

verus! {

/// Errors of the AEAD cipher are opaque values.
#[verifier::external_type_specification]
#[verifier::external_body]
pub struct ExAeadError(chacha20poly1305::aead::Error);

/// XChaCha20-Poly1305 encryption (no associated data) of `plaintext` under `key` and
/// `nonce`: the ciphertext followed by the 16-byte tag.
pub uninterp spec fn xchacha20poly1305_seal(key: Seq<u8>, nonce: Seq<u8>, plaintext: Seq<u8>) -> Seq<u8>;

/// XChaCha20-Poly1305 decryption (no associated data): the plaintext when the tag at the
/// end of `ciphertext` authenticates it, `None` otherwise.
pub uninterp spec fn xchacha20poly1305_open(key: Seq<u8>, nonce: Seq<u8>, ciphertext: Seq<u8>) -> Option<Seq<u8>>;

/// Argon2id with the default parameters (version 0x13, 19 MiB, 2 passes, 1 lane),
/// producing 32 bytes from `password` and `salt`.
pub uninterp spec fn argon2id_key(password: Seq<u8>, salt: Seq<u8>) -> Seq<u8>;

/// Length of the Poly1305 tag appended to every ciphertext.
pub open spec fn tag_len() -> int {
    16
}

/// Messages that the cipher encrypts and decrypts: at most `u32::MAX - 1` 64-byte
/// keystream blocks, since block 0 keys Poly1305 and the 32-bit block counter starts at 1.
pub open spec fn sealable(len: int) -> bool {
    len <= 64 * (0xffff_ffff - 1)
}

/// Messages that the cipher refuses before using its keystream: `u32::MAX` or more
/// whole 64-byte blocks.
pub open spec fn refused_len(len: int) -> bool {
    len >= 64 * 0xffff_ffff
}

/// Message lengths on which the cipher returns rather than panics. Between
/// `sealable` and `refused_len` lie 63 lengths on which its length check passes and the
/// keystream then runs out, which makes it panic.
pub open spec fn cipher_handles(len: int) -> bool {
    sealable(len) || refused_len(len)
}

/// The first `len - 16` bytes of a ciphertext of length `len`: the encrypted message
/// without its tag.
pub open spec fn body(c: Seq<u8>) -> Seq<u8> {
    c.subrange(0, c.len() - tag_len())
}

/// Letters and digits of ASCII, the alphabet of the transfer password.
pub open spec fn is_ascii_alphanumeric(c: char) -> bool {
    ||| ('0' <= c && c <= '9')
    ||| ('A' <= c && c <= 'Z')
    ||| ('a' <= c && c <= 'z')
}

/// Calls `Aead::encrypt` of `XChaCha20Poly1305` with the key and nonce taken from the
/// arrays. The crate refuses a message of `u32::MAX` or more 64-byte blocks and
/// otherwise returns the ciphertext with the 16-byte tag appended; on the lengths just
/// below that refusal it panics, which `requires` rules out.
#[verifier::external_body]
fn aead_seal(key: &[u8; 32], nonce: &[u8; 24], plaintext: &[u8]) -> (r: Result<
    Vec<u8>,
    chacha20poly1305::aead::Error,
>)
    requires
        plaintext@.len() + 16 <= usize::MAX,
        cipher_handles(plaintext@.len() as int),
    ensures
        r is Ok <==> sealable(plaintext@.len() as int),
        r matches Ok(c) ==> c@ == xchacha20poly1305_seal(key@, nonce@, plaintext@),
        r matches Ok(c) ==> c@.len() == plaintext@.len() + tag_len(),
{
    XChaCha20Poly1305::new(Key::from_slice(key)).encrypt(XNonce::from_slice(nonce), plaintext)
}

/// Calls `Aead::decrypt` of `XChaCha20Poly1305`. It fails on an input shorter than the
/// tag, on a body too long for the cipher, and on one whose tag is not the Poly1305 tag
/// of the body; otherwise it XORs the body with the keystream that encryption uses. So
/// it accepts exactly the outputs of `Aead::encrypt` under the same key and nonce and
/// gives back their plaintexts. A body of one of the 63 lengths on which the keystream
/// runs out makes it panic when the tag matches; `requires` leaves those lengths out.
#[verifier::external_body]
fn aead_open(key: &[u8; 32], nonce: &[u8; 24], ciphertext: &[u8]) -> (r: Result<
    Vec<u8>,
    chacha20poly1305::aead::Error,
>)
    requires
        ciphertext@.len() < tag_len() || cipher_handles(ciphertext@.len() - tag_len()),
    ensures
        r matches Ok(p) ==> xchacha20poly1305_open(key@, nonce@, ciphertext@) == Some(p@),
        r is Err ==> xchacha20poly1305_open(key@, nonce@, ciphertext@) is None,
        r matches Ok(p) ==> p@.len() + tag_len() == ciphertext@.len(),
        ciphertext@.len() < tag_len() ==> r is Err,
        forall|p: Seq<u8>|
            #[trigger] xchacha20poly1305_seal(key@, nonce@, p) == ciphertext@ && sealable(
                p.len() as int,
            ) ==> r is Ok && r->Ok_0@ == p,
        r is Ok ==> xchacha20poly1305_seal(key@, nonce@, r->Ok_0@) == ciphertext@ && sealable(
            r->Ok_0@.len() as int,
        ),
        forall|p: Seq<u8>|
            p.len() + tag_len() == ciphertext@.len() && sealable(p.len() as int) && body(
                #[trigger] xchacha20poly1305_seal(key@, nonce@, p),
            ) == body(ciphertext@) ==> (r is Ok <==> xchacha20poly1305_seal(key@, nonce@, p)
                == ciphertext@),
{
    XChaCha20Poly1305::new(Key::from_slice(key)).decrypt(XNonce::from_slice(nonce), ciphertext)
}

/// The `Display` text of `aead::Error`, which the crate writes as the fixed
/// string "aead::Error".
#[verifier::external_body]
fn aead_error_text(e: &chacha20poly1305::aead::Error) -> (s: String)
    ensures
        s@ == "aead::Error"@,
{
    format!("{}", e)
}

/// Calls `Argon2::hash_password_into` on `Argon2::default()` with a 32-byte output.
/// With a 16-byte salt and a 32-byte output the crate fails only on a password longer
/// than `0xffff_ffff` bytes, which `requires` rules out.
#[verifier::external_body]
fn argon2_hash_password_into(password: &[u8], salt: &[u8; 16]) -> (key: [u8; 32])
    requires
        password@.len() <= 0xffff_ffff,
    ensures
        key@ == argon2id_key(password@, salt@),
{
    let mut key = [0u8; 32];
    Argon2::default().hash_password_into(password, salt, &mut key).expect(
        "Argon2 failed to allocate memory for hashing",
    );
    key
}

/// Draws one byte from `rand::distr::Alphanumeric` with the thread-local generator of
/// `rand::rng()`: an ASCII letter or digit. The value is random; only its alphabet is
/// stated. `rand::rng()` panics if the operating system refuses to seed it.
#[verifier::external_body]
fn random_alphanumeric() -> (b: u8)
    ensures
        is_ascii_alphanumeric(b as char),
{
    rand::rng().sample(Alphanumeric)
}

/// `RngCore::fill_bytes` of `rand_core::OsRng`: fills `dest` with bytes from the
/// operating system's generator. The bytes are random; only that the length stays is
/// stated. The crate panics if the operating system's generator fails.
#[verifier::external_body]
pub(crate) fn fill_random(dest: &mut [u8])
    ensures
        final(dest)@.len() == old(dest)@.len(),
{
    OsRng.fill_bytes(dest)
}

/// `String::push`: appends one character.
#[verifier::external_body]
fn push_char(s: &mut String, c: char)
    ensures
        final(s)@ == old(s)@.push(c),
{
    s.push(c)
}

/// Encrypts `plaintext` with XChaCha20-Poly1305 under `encryption_key` and `nonce`.
/// Fails, with the message the cipher's error gives, exactly on messages too long for
/// the cipher.
pub fn encrypt_payload(encryption_key: &[u8; 32], nonce: &[u8; 24], plaintext: &[u8]) -> (r:
    Result<Vec<u8>, String>)
    requires
        plaintext@.len() + 16 <= usize::MAX,
        cipher_handles(plaintext@.len() as int),
    ensures
        sealable(plaintext@.len() as int) ==> (r matches Ok(c) && c@ == xchacha20poly1305_seal(
            encryption_key@,
            nonce@,
            plaintext@,
        ) && c@.len() == plaintext@.len() + tag_len()),
        !sealable(plaintext@.len() as int) ==> (r matches Err(m) && m@
            == "Encryption failed: aead::Error"@),
{
    match aead_seal(encryption_key, nonce, plaintext) {
        Ok(c) => Ok(c),
        Err(e) => {
            let mut m = String::from_str("Encryption failed: ");
            let text = aead_error_text(&e);
            m.append(text.as_str());
            proof {
                reveal_strlit("Encryption failed: ");
                reveal_strlit("aead::Error");
                reveal_strlit("Encryption failed: aead::Error");
            }
            assert(m@ =~= "Encryption failed: aead::Error"@);
            Err(m)
        },
    }
}

/// Decrypts and authenticates `ciphertext` under `encryption_key` and `nonce`. Gives
/// back the plaintext of anything `encrypt_payload` produced with the same key and
/// nonce, and accepts nothing else: what it accepts is the encryption of the plaintext
/// it returns, so a ciphertext whose tag was altered is refused. Fails, with the message
/// the cipher's error gives, on anything that does not authenticate.
pub fn decrypt_payload(encryption_key: &[u8; 32], nonce: &[u8; 24], ciphertext: &[u8]) -> (r:
    Result<Vec<u8>, String>)
    requires
        ciphertext@.len() < tag_len() || cipher_handles(ciphertext@.len() - tag_len()),
    ensures
        r matches Ok(p) ==> xchacha20poly1305_open(encryption_key@, nonce@, ciphertext@) == Some(
            p@,
        ),
        r is Err <==> xchacha20poly1305_open(encryption_key@, nonce@, ciphertext@) is None,
        r matches Err(m) ==> m@ == "Decryption failed or data corrupted: aead::Error"@,
        ciphertext@.len() < tag_len() ==> r is Err,
        forall|p: Seq<u8>|
            #[trigger] xchacha20poly1305_seal(encryption_key@, nonce@, p) == ciphertext@
                && sealable(p.len() as int) ==> r is Ok && r->Ok_0@ == p,
        r is Ok ==> r->Ok_0@.len() + tag_len() == ciphertext@.len(),
        r is Ok ==> sealable(r->Ok_0@.len() as int),
        r is Ok ==> xchacha20poly1305_seal(encryption_key@, nonce@, r->Ok_0@) == ciphertext@,
        forall|p: Seq<u8>|
            p.len() + tag_len() == ciphertext@.len() && sealable(p.len() as int) && body(
                #[trigger] xchacha20poly1305_seal(encryption_key@, nonce@, p),
            ) == body(ciphertext@) && xchacha20poly1305_seal(encryption_key@, nonce@, p)
                != ciphertext@ ==> r is Err,
{
    match aead_open(encryption_key, nonce, ciphertext) {
        Ok(p) => Ok(p),
        Err(e) => {
            let mut m = String::from_str("Decryption failed or data corrupted: ");
            let text = aead_error_text(&e);
            m.append(text.as_str());
            proof {
                reveal_strlit("Decryption failed or data corrupted: ");
                reveal_strlit("aead::Error");
                reveal_strlit("Decryption failed or data corrupted: aead::Error");
            }
            assert(m@ =~= "Decryption failed or data corrupted: aead::Error"@);
            Err(m)
        },
    }
}

/// Derives the 32-byte transfer key from `password` (its UTF-8 bytes) and `salt` with
/// Argon2id at its default parameters. Both sides of a transfer that hold the same
/// password and salt derive the same key.
pub fn derive_encryption_key(password: String, salt: &[u8; 16]) -> (key: [u8; 32])
    requires
        encode_utf8(password@).len() <= 0xffff_ffff,
    ensures
        key@ == argon2id_key(encode_utf8(password@), salt@),
{
    let bytes = password.as_str().as_bytes();
    argon2_hash_password_into(bytes, salt)
}

/// The transfer password that the drawn bytes spell, one character per byte.
pub fn password_from_draws(draws: &[u8; 7]) -> (hash: String)
    ensures
        hash@ == Seq::new(7, |i: int| draws@[i] as char),
{
    let mut hash = String::new();
    let mut n: usize = 0;
    while n < 7
        invariant
            n <= 7,
            hash@ == Seq::new(n as nat, |i: int| draws@[i] as char),
        decreases 7 - n,
    {
        push_char(&mut hash, draws[n] as char);
        n = n + 1;
        assert(hash@ =~= Seq::new(n as nat, |i: int| draws@[i] as char));
    }
    hash
}

/// A fresh random transfer password: seven ASCII letters or digits.
pub fn generate_hash() -> (hash: String)
    ensures
        hash@.len() == 7,
        forall|i: int| 0 <= i < 7 ==> is_ascii_alphanumeric(#[trigger] hash@[i]),
{
    let mut draws = [0u8; 7];
    let mut n: usize = 0;
    while n < 7
        invariant
            n <= 7,
            draws@.len() == 7,
            forall|i: int| 0 <= i < n ==> is_ascii_alphanumeric(#[trigger] draws@[i] as char),
        decreases 7 - n,
    {
        draws[n] = random_alphanumeric();
        n = n + 1;
    }
    let hash = password_from_draws(&draws);
    assert forall|i: int| 0 <= i < 7 implies is_ascii_alphanumeric(#[trigger] hash@[i]) by {
        assert(hash@[i] == draws@[i] as char);
    }
    hash
}

} // verus!
