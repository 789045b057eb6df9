//! The cryptographic primitives, which OpenSSL computes. Nothing in this
//! file is proved: each function states what is taken on trust of the
//! OpenSSL call that it makes. Keys are handed over in DER form.

use vstd::prelude::*;
use openssl::hash::MessageDigest;
use openssl::pkey::PKey;
use openssl::rsa::{Padding, Rsa};
use openssl::sign::{Signer, Verifier};
use openssl::symm::Cipher;

verus! {

/// The HMAC-SHA1 of `data` under `key`.
pub uninterp spec fn hmac_sha1_of(key: Seq<u8>, data: Seq<u8>) -> Seq<u8>;

/// The HMAC-SHA256 of `data` under `key`.
pub uninterp spec fn hmac_sha256_of(key: Seq<u8>, data: Seq<u8>) -> Seq<u8>;

/// The RSA signature (PKCS#1 v1.5) of the SHA-1 digest of `data` under the
/// plain RSA private key `key`.
pub uninterp spec fn rsa_sha1_signature(key: Seq<u8>, data: Seq<u8>) -> Seq<u8>;

/// The RSA signature (PKCS#1 v1.5) of the SHA-256 digest of `data` under
/// the plain RSA private key `key`.
pub uninterp spec fn rsa_sha256_signature(key: Seq<u8>, data: Seq<u8>) -> Seq<u8>;

/// Whether `signature` is the RSA signature of the SHA-1 digest of `data`
/// by the owner of the public key `key`.
pub uninterp spec fn rsa_sha1_verifies(key: Seq<u8>, data: Seq<u8>, signature: Seq<u8>) -> bool;

/// Whether `signature` is the RSA signature of the SHA-256 digest of
/// `data` by the owner of the public key `key`.
pub uninterp spec fn rsa_sha256_verifies(key: Seq<u8>, data: Seq<u8>, signature: Seq<u8>) -> bool;

/// The size in bytes of the modulus of the RSA public key `key`.
pub uninterp spec fn rsa_public_size(key: Seq<u8>) -> nat;

/// The size in bytes of the modulus of the RSA private key `key`.
pub uninterp spec fn rsa_private_size(key: Seq<u8>) -> nat;

/// The plaintext of the RSA block `block`, padded as PKCS#1 v1.5, under
/// the private key `key`.
pub uninterp spec fn rsa_pkcs1_plaintext(key: Seq<u8>, block: Seq<u8>) -> Seq<u8>;

/// The plaintext of the RSA block `block`, padded as OAEP with SHA-1,
/// under the private key `key`.
pub uninterp spec fn rsa_oaep_plaintext(key: Seq<u8>, block: Seq<u8>) -> Seq<u8>;

/// The AES-128-CBC ciphertext of `data`, with PKCS padding.
pub uninterp spec fn aes_128_cbc_ciphertext(key: Seq<u8>, iv: Seq<u8>, data: Seq<u8>) -> Seq<u8>;

/// The AES-256-CBC ciphertext of `data`, with PKCS padding.
pub uninterp spec fn aes_256_cbc_ciphertext(key: Seq<u8>, iv: Seq<u8>, data: Seq<u8>) -> Seq<u8>;

/// The plaintext of the AES-128-CBC ciphertext `data`.
pub uninterp spec fn aes_128_cbc_plaintext(key: Seq<u8>, iv: Seq<u8>, data: Seq<u8>) -> Seq<u8>;

/// The plaintext of the AES-256-CBC ciphertext `data`.
pub uninterp spec fn aes_256_cbc_plaintext(key: Seq<u8>, iv: Seq<u8>, data: Seq<u8>) -> Seq<u8>;

/// Computes an HMAC-SHA1 with `PKey::hmac`, `Signer::new` and
/// `Signer::sign_oneshot_to_vec`. What comes out depends on key and data
/// alone; that anything comes out is not promised.
#[verifier::external_body]
pub(crate) fn hmac_sha1(key: &[u8], data: &[u8]) -> (r: Option<Vec<u8>>)
    requires
        key@.len() <= i32::MAX,
    ensures
        r matches Some(mac) ==> mac@ == hmac_sha1_of(key@, data@),
{
    let pkey = PKey::hmac(key).ok()?;
    let mut signer = Signer::new(MessageDigest::sha1(), &pkey).ok()?;
    signer.sign_oneshot_to_vec(data).ok()
}

/// Computes an HMAC-SHA256 with `PKey::hmac`, `Signer::new` and
/// `Signer::sign_oneshot_to_vec`. What comes out depends on key and data
/// alone; that anything comes out is not promised.
#[verifier::external_body]
pub(crate) fn hmac_sha256(key: &[u8], data: &[u8]) -> (r: Option<Vec<u8>>)
    requires
        key@.len() <= i32::MAX,
    ensures
        r matches Some(mac) ==> mac@ == hmac_sha256_of(key@, data@),
{
    let pkey = PKey::hmac(key).ok()?;
    let mut signer = Signer::new(MessageDigest::sha256(), &pkey).ok()?;
    signer.sign_oneshot_to_vec(data).ok()
}

/// Signs the SHA-1 digest of `data` with `Rsa::private_key_from_der`,
/// `PKey::from_rsa`, `Signer::new` and `Signer::sign_oneshot_to_vec`. Only
/// a plain RSA key in the form of PKCS#1 is read, and such a key signs in
/// the padding of PKCS#1 v1.5, in which the signature depends on key and
/// data alone.
#[verifier::external_body]
pub(crate) fn rsa_sign_sha1(key: &[u8], data: &[u8]) -> (r: Option<Vec<u8>>)
    ensures
        r matches Some(signature) ==> signature@ == rsa_sha1_signature(key@, data@),
{
    let rsa = Rsa::private_key_from_der(key).ok()?;
    let pkey = PKey::from_rsa(rsa).ok()?;
    let mut signer = Signer::new(MessageDigest::sha1(), &pkey).ok()?;
    signer.sign_oneshot_to_vec(data).ok()
}

/// Signs the SHA-256 digest of `data` with `Rsa::private_key_from_der`,
/// `PKey::from_rsa`, `Signer::new` and `Signer::sign_oneshot_to_vec`. Only
/// a plain RSA key in the form of PKCS#1 is read, and such a key signs in
/// the padding of PKCS#1 v1.5, in which the signature depends on key and
/// data alone.
#[verifier::external_body]
pub(crate) fn rsa_sign_sha256(key: &[u8], data: &[u8]) -> (r: Option<Vec<u8>>)
    ensures
        r matches Some(signature) ==> signature@ == rsa_sha256_signature(key@, data@),
{
    let rsa = Rsa::private_key_from_der(key).ok()?;
    let pkey = PKey::from_rsa(rsa).ok()?;
    let mut signer = Signer::new(MessageDigest::sha256(), &pkey).ok()?;
    signer.sign_oneshot_to_vec(data).ok()
}

/// Checks a signature over the SHA-1 digest of `data` with
/// `Rsa::public_key_from_der`, `PKey::from_rsa`, `Verifier::new` and
/// `Verifier::verify_oneshot`. Only an RSA key is read. The verdict
/// depends on key, data and signature alone.
#[verifier::external_body]
pub(crate) fn rsa_verify_sha1(key: &[u8], data: &[u8], signature: &[u8]) -> (r: Option<bool>)
    ensures
        r matches Some(valid) ==> valid == rsa_sha1_verifies(key@, data@, signature@),
{
    let rsa = Rsa::public_key_from_der(key).ok()?;
    let pkey = PKey::from_rsa(rsa).ok()?;
    let mut verifier = Verifier::new(MessageDigest::sha1(), &pkey).ok()?;
    verifier.verify_oneshot(signature, data).ok()
}

/// Checks a signature over the SHA-256 digest of `data` with
/// `Rsa::public_key_from_der`, `PKey::from_rsa`, `Verifier::new` and
/// `Verifier::verify_oneshot`. Only an RSA key is read. The verdict
/// depends on key, data and signature alone.
#[verifier::external_body]
pub(crate) fn rsa_verify_sha256(key: &[u8], data: &[u8], signature: &[u8]) -> (r: Option<bool>)
    ensures
        r matches Some(valid) ==> valid == rsa_sha256_verifies(key@, data@, signature@),
{
    let rsa = Rsa::public_key_from_der(key).ok()?;
    let pkey = PKey::from_rsa(rsa).ok()?;
    let mut verifier = Verifier::new(MessageDigest::sha256(), &pkey).ok()?;
    verifier.verify_oneshot(signature, data).ok()
}

/// The size of the modulus of a public key in bytes, from
/// `Rsa::public_key_from_der` and `Rsa::size`.
#[verifier::external_body]
pub(crate) fn rsa_public_key_size(key: &[u8]) -> (r: Option<usize>)
    ensures
        r matches Some(size) ==> size == rsa_public_size(key@),
{
    let rsa = Rsa::public_key_from_der(key).ok()?;
    Some(rsa.size() as usize)
}

/// The size of the modulus of a private key in bytes, from
/// `Rsa::private_key_from_der` and `Rsa::size`.
#[verifier::external_body]
pub(crate) fn rsa_private_key_size(key: &[u8]) -> (r: Option<usize>)
    ensures
        r matches Some(size) ==> size == rsa_private_size(key@),
{
    let rsa = Rsa::private_key_from_der(key).ok()?;
    Some(rsa.size() as usize)
}

/// Encrypts one block with `Rsa::public_key_from_der` and
/// `Rsa::public_encrypt` in the padding of PKCS#1 v1.5. The padding is
/// random, so nothing is said of the result.
#[verifier::external_body]
pub(crate) fn rsa_encrypt_pkcs1(key: &[u8], block: &[u8]) -> (r: Option<Vec<u8>>)
    requires
        block@.len() <= i32::MAX,
{
    let rsa = Rsa::public_key_from_der(key).ok()?;
    let mut to = vec![0u8; rsa.size() as usize];
    let n = rsa.public_encrypt(block, &mut to, Padding::PKCS1).ok()?;
    to.truncate(n);
    Some(to)
}

/// Encrypts one block with `Rsa::public_key_from_der` and
/// `Rsa::public_encrypt` in the OAEP padding. The padding is random, so
/// nothing is said of the result.
#[verifier::external_body]
pub(crate) fn rsa_encrypt_oaep(key: &[u8], block: &[u8]) -> (r: Option<Vec<u8>>)
    requires
        block@.len() <= i32::MAX,
{
    let rsa = Rsa::public_key_from_der(key).ok()?;
    let mut to = vec![0u8; rsa.size() as usize];
    let n = rsa.public_encrypt(block, &mut to, Padding::PKCS1_OAEP).ok()?;
    to.truncate(n);
    Some(to)
}

/// Decrypts one block with `Rsa::private_key_from_der` and
/// `Rsa::private_decrypt` in the padding of PKCS#1 v1.5. The plaintext
/// depends on key and block alone.
#[verifier::external_body]
pub(crate) fn rsa_decrypt_pkcs1(key: &[u8], block: &[u8]) -> (r: Option<Vec<u8>>)
    requires
        block@.len() <= i32::MAX,
    ensures
        r matches Some(plain) ==> plain@ == rsa_pkcs1_plaintext(key@, block@),
{
    let rsa = Rsa::private_key_from_der(key).ok()?;
    let mut to = vec![0u8; rsa.size() as usize];
    let n = rsa.private_decrypt(block, &mut to, Padding::PKCS1).ok()?;
    to.truncate(n);
    Some(to)
}

/// Decrypts one block with `Rsa::private_key_from_der` and
/// `Rsa::private_decrypt` in the OAEP padding. The plaintext depends on
/// key and block alone.
#[verifier::external_body]
pub(crate) fn rsa_decrypt_oaep(key: &[u8], block: &[u8]) -> (r: Option<Vec<u8>>)
    requires
        block@.len() <= i32::MAX,
    ensures
        r matches Some(plain) ==> plain@ == rsa_oaep_plaintext(key@, block@),
{
    let rsa = Rsa::private_key_from_der(key).ok()?;
    let mut to = vec![0u8; rsa.size() as usize];
    let n = rsa.private_decrypt(block, &mut to, Padding::PKCS1_OAEP).ok()?;
    to.truncate(n);
    Some(to)
}

/// Encrypts with `openssl::symm::encrypt` and the cipher AES-128-CBC,
/// which pads as PKCS. The ciphertext depends on key, IV and data alone.
#[verifier::external_body]
pub(crate) fn aes_128_cbc_encrypt(key: &[u8], iv: &[u8], data: &[u8]) -> (r: Option<Vec<u8>>)
    requires
        key@.len() == 16,
        iv@.len() == 16,
        data@.len() + 16 <= i32::MAX,
    ensures
        r matches Some(out) ==> out@ == aes_128_cbc_ciphertext(key@, iv@, data@),
{
    openssl::symm::encrypt(Cipher::aes_128_cbc(), key, Some(iv), data).ok()
}

/// Encrypts with `openssl::symm::encrypt` and the cipher AES-256-CBC,
/// which pads as PKCS. The ciphertext depends on key, IV and data alone.
#[verifier::external_body]
pub(crate) fn aes_256_cbc_encrypt(key: &[u8], iv: &[u8], data: &[u8]) -> (r: Option<Vec<u8>>)
    requires
        key@.len() == 32,
        iv@.len() == 16,
        data@.len() + 16 <= i32::MAX,
    ensures
        r matches Some(out) ==> out@ == aes_256_cbc_ciphertext(key@, iv@, data@),
{
    openssl::symm::encrypt(Cipher::aes_256_cbc(), key, Some(iv), data).ok()
}

/// Decrypts with `openssl::symm::decrypt` and the cipher AES-128-CBC. The
/// plaintext depends on key, IV and data alone.
#[verifier::external_body]
pub(crate) fn aes_128_cbc_decrypt(key: &[u8], iv: &[u8], data: &[u8]) -> (r: Option<Vec<u8>>)
    requires
        key@.len() == 16,
        iv@.len() == 16,
        data@.len() + 16 <= i32::MAX,
    ensures
        r matches Some(out) ==> out@ == aes_128_cbc_plaintext(key@, iv@, data@),
{
    openssl::symm::decrypt(Cipher::aes_128_cbc(), key, Some(iv), data).ok()
}

/// Decrypts with `openssl::symm::decrypt` and the cipher AES-256-CBC. The
/// plaintext depends on key, IV and data alone.
#[verifier::external_body]
pub(crate) fn aes_256_cbc_decrypt(key: &[u8], iv: &[u8], data: &[u8]) -> (r: Option<Vec<u8>>)
    requires
        key@.len() == 32,
        iv@.len() == 16,
        data@.len() + 16 <= i32::MAX,
    ensures
        r matches Some(out) ==> out@ == aes_256_cbc_plaintext(key@, iv@, data@),
{
    openssl::symm::decrypt(Cipher::aes_256_cbc(), key, Some(iv), data).ok()
}

} // verus!
