//! Security policies: the named bundles of algorithms that protect a
//! secure channel, the keys derived for a channel, and the signing and
//! encrypting of message chunks.

use vstd::prelude::*;
use vstd::slice::{slice_subrange, slice_to_vec};
use std::str::FromStr;
use crate::crypto::{
    aes_128_cbc_ciphertext, aes_128_cbc_decrypt, aes_128_cbc_encrypt, aes_128_cbc_plaintext,
    aes_256_cbc_ciphertext, aes_256_cbc_decrypt, aes_256_cbc_encrypt, aes_256_cbc_plaintext,
    hmac_sha1, hmac_sha1_of, hmac_sha256, hmac_sha256_of, rsa_decrypt_oaep, rsa_decrypt_pkcs1,
    rsa_encrypt_oaep, rsa_encrypt_pkcs1, rsa_oaep_plaintext, rsa_pkcs1_plaintext,
    rsa_private_key_size, rsa_private_size, rsa_public_key_size, rsa_public_size,
    rsa_sha1_signature, rsa_sha1_verifies, rsa_sha256_signature, rsa_sha256_verifies,
    rsa_sign_sha1, rsa_sign_sha256, rsa_verify_sha1, rsa_verify_sha256,
};
use crate::status_codes::{
    StatusCode, BAD_APPLICATION_SIGNATURE_INVALID, BAD_SECURITY_CHECKS_FAILED,
    BAD_SECURITY_POLICY_REJECTED, BAD_UNEXPECTED_ERROR,
};

verus! {

/// URI of the policy without security.
pub const SECURITY_POLICY_NONE_URI: &'static str =
    "http://opcfoundation.org/UA/SecurityPolicy#None";

/// URI of the policy `Basic128Rsa15`.
pub const SECURITY_POLICY_BASIC_128_RSA_15_URI: &'static str =
    "http://opcfoundation.org/UA/SecurityPolicy#Basic128Rsa15";

/// URI of the policy `Basic256`.
pub const SECURITY_POLICY_BASIC_256_URI: &'static str =
    "http://opcfoundation.org/UA/SecurityPolicy#Basic256";

/// URI of the policy `Basic256Sha256`.
pub const SECURITY_POLICY_BASIC_256_SHA_256_URI: &'static str =
    "http://opcfoundation.org/UA/SecurityPolicy#Basic256Sha256";

/// Short name of the policy without security.
pub const SECURITY_POLICY_NONE: &'static str = "None";

/// Short name of the policy `Basic128Rsa15`.
pub const SECURITY_POLICY_BASIC_128_RSA_15: &'static str = "Basic128Rsa15";

/// Short name of the policy `Basic256`.
pub const SECURITY_POLICY_BASIC_256: &'static str = "Basic256";

/// Short name of the policy `Basic256Sha256`.
pub const SECURITY_POLICY_BASIC_256_SHA_256: &'static str = "Basic256Sha256";

/// HMAC-SHA1.
pub const HMAC_SHA1_ALGORITHM: &'static str = "http://www.w3.org/2000/09/xmldsig#hmac-sha1";

/// HMAC-SHA256.
pub const HMAC_SHA256_ALGORITHM: &'static str = "http://www.w3.org/2000/09/xmldsig#hmac-sha256";

/// RSA with SHA-1.
pub const RSA_SHA1_ALGORITHM: &'static str = "http://www.w3.org/2000/09/xmldsig#rsa-sha1";

/// RSA with SHA-256.
pub const RSA_SHA256_ALGORITHM: &'static str = "http://www.w3.org/2001/04/xmldsig#rsa-sha256";

/// The size of a SHA-1 digest in bytes.
pub const SHA1_SIZE: usize = 20;

/// The size of a SHA-256 digest in bytes.
pub const SHA256_SIZE: usize = 32;

/// The block size of AES in bytes.
pub const AES_BLOCK_SIZE: usize = 16;

/// What a security policy says of the algorithms and key strengths of a
/// secure channel.
#[derive(Debug, Clone, Copy, PartialEq, Eq, Structural, Hash)]
pub enum SecurityPolicy {
    /// A policy that this library does not know.
    Unknown,
    /// No signing and no encryption.
    NoSecurity,
    Basic128Rsa15,
    Basic256,
    Basic256Sha256,
}

/// True for the policies that sign and encrypt.
pub open spec fn is_secure(policy: SecurityPolicy) -> bool {
    policy is Basic128Rsa15 || policy is Basic256 || policy is Basic256Sha256
}

/// The error of a cryptographic operation that fails under `policy`: a
/// policy that does not sign and encrypt is rejected; under the others
/// the failure is that of the primitive or of the buffers.
pub open spec fn failure_of(policy: SecurityPolicy) -> StatusCode {
    if is_secure(policy) {
        BAD_UNEXPECTED_ERROR
    } else {
        BAD_SECURITY_POLICY_REJECTED
    }
}

/// The URI of `policy`, which is not `Unknown`.
pub open spec fn uri_of(policy: SecurityPolicy) -> Seq<char> {
    match policy {
        SecurityPolicy::Basic128Rsa15 => SECURITY_POLICY_BASIC_128_RSA_15_URI@,
        SecurityPolicy::Basic256 => SECURITY_POLICY_BASIC_256_URI@,
        SecurityPolicy::Basic256Sha256 => SECURITY_POLICY_BASIC_256_SHA_256_URI@,
        _ => SECURITY_POLICY_NONE_URI@,
    }
}

/// The policy that the URI `uri` names, `Unknown` where it names none.
pub open spec fn policy_of_uri(uri: Seq<char>) -> SecurityPolicy {
    if uri == SECURITY_POLICY_NONE_URI@ {
        SecurityPolicy::NoSecurity
    } else if uri == SECURITY_POLICY_BASIC_128_RSA_15_URI@ {
        SecurityPolicy::Basic128Rsa15
    } else if uri == SECURITY_POLICY_BASIC_256_URI@ {
        SecurityPolicy::Basic256
    } else if uri == SECURITY_POLICY_BASIC_256_SHA_256_URI@ {
        SecurityPolicy::Basic256Sha256
    } else {
        SecurityPolicy::Unknown
    }
}

/// The short name of `policy`, empty for `Unknown`.
pub open spec fn name_of(policy: SecurityPolicy) -> Seq<char> {
    match policy {
        SecurityPolicy::NoSecurity => SECURITY_POLICY_NONE@,
        SecurityPolicy::Basic128Rsa15 => SECURITY_POLICY_BASIC_128_RSA_15@,
        SecurityPolicy::Basic256 => SECURITY_POLICY_BASIC_256@,
        SecurityPolicy::Basic256Sha256 => SECURITY_POLICY_BASIC_256_SHA_256@,
        SecurityPolicy::Unknown => ""@,
    }
}

/// The policy that the short name `name` names, `Unknown` where it names
/// none.
pub open spec fn policy_of_name(name: Seq<char>) -> SecurityPolicy {
    if name == SECURITY_POLICY_NONE@ {
        SecurityPolicy::NoSecurity
    } else if name == SECURITY_POLICY_BASIC_128_RSA_15@ {
        SecurityPolicy::Basic128Rsa15
    } else if name == SECURITY_POLICY_BASIC_256@ {
        SecurityPolicy::Basic256
    } else if name == SECURITY_POLICY_BASIC_256_SHA_256@ {
        SecurityPolicy::Basic256Sha256
    } else {
        SecurityPolicy::Unknown
    }
}

/// The size in bytes of the symmetric signature of `policy`.
pub open spec fn signature_size(policy: SecurityPolicy) -> nat {
    match policy {
        SecurityPolicy::Basic128Rsa15 | SecurityPolicy::Basic256 => 20,
        SecurityPolicy::Basic256Sha256 => 32,
        _ => 0,
    }
}

/// The size in bytes of the derived signing key of `policy`.
pub open spec fn signing_key_size(policy: SecurityPolicy) -> nat {
    match policy {
        SecurityPolicy::Basic128Rsa15 => 16,
        SecurityPolicy::Basic256 => 24,
        SecurityPolicy::Basic256Sha256 => 32,
        _ => 0,
    }
}

/// The size in bytes of the derived encrypting key of `policy`.
pub open spec fn encrypting_key_size(policy: SecurityPolicy) -> nat {
    match policy {
        SecurityPolicy::Basic128Rsa15 => 16,
        SecurityPolicy::Basic256 | SecurityPolicy::Basic256Sha256 => 32,
        _ => 0,
    }
}

/// The bytes that the asymmetric padding of `policy` takes from every
/// block: 11 for PKCS#1 v1.5, 42 for OAEP with SHA-1.
pub open spec fn padding_size(policy: SecurityPolicy) -> nat {
    match policy {
        SecurityPolicy::Basic128Rsa15 => 11,
        _ => 42,
    }
}

/// Tells whether two texts are the same.
fn same_text(a: &str, b: &str) -> (r: bool)
    ensures
        r == (a@ == b@),
{
    a.to_owned() == b.to_owned()
}

impl SecurityPolicy {
    /// The URI of the policy.
    pub fn to_uri(&self) -> (r: &'static str)
        requires
            !(self is Unknown),
        ensures
            r@ == uri_of(*self),
    {
        match self {
            SecurityPolicy::Basic128Rsa15 => SECURITY_POLICY_BASIC_128_RSA_15_URI,
            SecurityPolicy::Basic256 => SECURITY_POLICY_BASIC_256_URI,
            SecurityPolicy::Basic256Sha256 => SECURITY_POLICY_BASIC_256_SHA_256_URI,
            _ => SECURITY_POLICY_NONE_URI,
        }
    }

    /// The short name of the policy, empty for `Unknown`.
    pub fn to_string(&self) -> (r: String)
        ensures
            r@ == name_of(*self),
    {
        let name = match self {
            SecurityPolicy::NoSecurity => SECURITY_POLICY_NONE,
            SecurityPolicy::Basic128Rsa15 => SECURITY_POLICY_BASIC_128_RSA_15,
            SecurityPolicy::Basic256 => SECURITY_POLICY_BASIC_256,
            SecurityPolicy::Basic256Sha256 => SECURITY_POLICY_BASIC_256_SHA_256,
            SecurityPolicy::Unknown => "",
        };
        name.to_owned()
    }

    /// The policy with the short name `name`, `Unknown` where there is none.
    pub fn from_name(name: &str) -> (r: SecurityPolicy)
        ensures
            r == policy_of_name(name@),
    {
        if same_text(name, SECURITY_POLICY_NONE) {
            SecurityPolicy::NoSecurity
        } else if same_text(name, SECURITY_POLICY_BASIC_128_RSA_15) {
            SecurityPolicy::Basic128Rsa15
        } else if same_text(name, SECURITY_POLICY_BASIC_256) {
            SecurityPolicy::Basic256
        } else if same_text(name, SECURITY_POLICY_BASIC_256_SHA_256) {
            SecurityPolicy::Basic256Sha256
        } else {
            SecurityPolicy::Unknown
        }
    }

    /// The policy with the URI `uri`, `Unknown` where there is none.
    pub fn from_uri(uri: &str) -> (r: SecurityPolicy)
        ensures
            r == policy_of_uri(uri@),
    {
        if same_text(uri, SECURITY_POLICY_NONE_URI) {
            SecurityPolicy::NoSecurity
        } else if same_text(uri, SECURITY_POLICY_BASIC_128_RSA_15_URI) {
            SecurityPolicy::Basic128Rsa15
        } else if same_text(uri, SECURITY_POLICY_BASIC_256_URI) {
            SecurityPolicy::Basic256
        } else if same_text(uri, SECURITY_POLICY_BASIC_256_SHA_256_URI) {
            SecurityPolicy::Basic256Sha256
        } else {
            SecurityPolicy::Unknown
        }
    }

    /// True for the policies that sign and encrypt.
    pub fn is_secure(&self) -> (r: bool)
        ensures
            r == is_secure(*self),
    {
        match self {
            SecurityPolicy::Basic128Rsa15
            | SecurityPolicy::Basic256
            | SecurityPolicy::Basic256Sha256 => true,
            _ => false,
        }
    }

    /// The URI of the algorithm of the asymmetric signature.
    pub fn asymmetric_signature_algorithm(&self) -> (r: &'static str)
        requires
            is_secure(*self),
        ensures
            r@ == (if *self is Basic256Sha256 {
                RSA_SHA256_ALGORITHM@
            } else {
                RSA_SHA1_ALGORITHM@
            }),
    {
        match self {
            SecurityPolicy::Basic256Sha256 => RSA_SHA256_ALGORITHM,
            _ => RSA_SHA1_ALGORITHM,
        }
    }

    /// The URI of the algorithm of the symmetric signature.
    pub fn symmetric_signature_algorithm(&self) -> (r: &'static str)
        requires
            is_secure(*self),
        ensures
            r@ == (if *self is Basic256Sha256 {
                HMAC_SHA256_ALGORITHM@
            } else {
                HMAC_SHA1_ALGORITHM@
            }),
    {
        match self {
            SecurityPolicy::Basic256Sha256 => HMAC_SHA256_ALGORITHM,
            _ => HMAC_SHA1_ALGORITHM,
        }
    }

    /// The size of the symmetric key in bytes.
    pub fn symmetric_key_size(&self) -> (r: usize)
        requires
            is_secure(*self),
        ensures
            r == encrypting_key_size(*self),
    {
        match self {
            SecurityPolicy::Basic128Rsa15 => 16,
            _ => 32,
        }
    }

    /// The size of a block of plaintext in bytes.
    pub fn plain_block_size(&self) -> (r: usize)
        requires
            is_secure(*self),
        ensures
            r == AES_BLOCK_SIZE,
    {
        16
    }

    /// The size of the symmetric signature in bytes; 0 without security.
    pub fn symmetric_signature_size(&self) -> (r: usize)
        requires
            !(self is Unknown),
        ensures
            r == signature_size(*self),
    {
        match self {
            SecurityPolicy::Basic128Rsa15 | SecurityPolicy::Basic256 => SHA1_SIZE,
            SecurityPolicy::Basic256Sha256 => SHA256_SIZE,
            _ => 0,
        }
    }

    /// The size of the derived signing key in bytes.
    pub fn derived_signature_key_size(&self) -> (r: usize)
        requires
            is_secure(*self),
        ensures
            r == signing_key_size(*self),
    {
        let bits: usize = match self {
            SecurityPolicy::Basic128Rsa15 => 128,
            SecurityPolicy::Basic256 => 192,
            _ => 256,
        };
        bits / 8
    }

    /// The shortest asymmetric key that the policy admits, in bits.
    pub fn min_asymmetric_key_length(&self) -> (r: usize)
        requires
            is_secure(*self),
        ensures
            r == (if *self is Basic256Sha256 {
                2048int
            } else {
                1024int
            }),
    {
        match self {
            SecurityPolicy::Basic256Sha256 => 2048,
            _ => 1024,
        }
    }

    /// The longest asymmetric key that the policy admits, in bits.
    pub fn max_asymmetric_key_length(&self) -> (r: usize)
        requires
            is_secure(*self),
        ensures
            r == (if *self is Basic256Sha256 {
                4096int
            } else {
                2048int
            }),
    {
        match self {
            SecurityPolicy::Basic256Sha256 => 4096,
            _ => 2048,
        }
    }
}

impl FromStr for SecurityPolicy {
    type Err = ();

    /// The policy with the short name `s`, `Unknown` where there is none.
    /// Every text gives a policy: there is no error.
    fn from_str(s: &str) -> (r: Result<Self, Self::Err>)
        ensures
            r == Ok::<SecurityPolicy, ()>(policy_of_name(s@)),
    {
        Ok(SecurityPolicy::from_name(s))
    }
}

/// An RSA private key in DER form (the `RSAPrivateKey` of PKCS#1).
#[derive(Debug, Clone, PartialEq, Eq)]
pub struct PrivateKey {
    pub der: Vec<u8>,
}

/// An RSA public key in DER form (SubjectPublicKeyInfo).
#[derive(Debug, Clone, PartialEq, Eq)]
pub struct PublicKey {
    pub der: Vec<u8>,
}

impl View for PrivateKey {
    type V = Seq<u8>;

    open spec fn view(&self) -> Seq<u8> {
        self.der@
    }
}

impl View for PublicKey {
    type V = Seq<u8>;

    open spec fn view(&self) -> Seq<u8> {
        self.der@
    }
}

impl PrivateKey {
    /// The size of the modulus in bytes, where the key can be read.
    pub fn size(&self) -> (r: Option<usize>)
        ensures
            r matches Some(size) ==> size == rsa_private_size(self@),
    {
        rsa_private_key_size(self.der.as_slice())
    }
}

impl PublicKey {
    /// The size of the modulus in bytes, where the key can be read.
    pub fn size(&self) -> (r: Option<usize>)
        ensures
            r matches Some(size) ==> size == rsa_public_size(self@),
    {
        rsa_public_key_size(self.der.as_slice())
    }
}

/// A key for the symmetric cipher of a policy.
#[derive(Debug, Clone, PartialEq, Eq)]
pub struct AesKey {
    pub value: Vec<u8>,
    pub security_policy: SecurityPolicy,
}

/// The HMAC of `data` under `key` in the algorithm of `policy`.
pub open spec fn hmac_of(policy: SecurityPolicy, key: Seq<u8>, data: Seq<u8>) -> Seq<u8> {
    match policy {
        SecurityPolicy::Basic128Rsa15 | SecurityPolicy::Basic256 => hmac_sha1_of(key, data),
        SecurityPolicy::Basic256Sha256 => hmac_sha256_of(key, data),
        _ => Seq::empty(),
    }
}

/// The value `A(i)` of the expansion P_SHA: `A(0)` is the seed and
/// `A(i)` is the HMAC of `A(i-1)` under the secret.
pub open spec fn p_sha_a(policy: SecurityPolicy, secret: Seq<u8>, seed: Seq<u8>, i: nat) -> Seq<u8>
    decreases i,
{
    if i == 0 {
        seed
    } else {
        hmac_of(policy, secret, p_sha_a(policy, secret, seed, (i - 1) as nat))
    }
}

/// The first `blocks` blocks of the expansion P_SHA: block `i` is the
/// HMAC of `A(i)` followed by the seed.
pub open spec fn p_sha_stream(
    policy: SecurityPolicy,
    secret: Seq<u8>,
    seed: Seq<u8>,
    blocks: nat,
) -> Seq<u8>
    decreases blocks,
{
    if blocks == 0 {
        Seq::empty()
    } else {
        p_sha_stream(policy, secret, seed, (blocks - 1) as nat) + hmac_of(
            policy,
            secret,
            p_sha_a(policy, secret, seed, blocks) + seed,
        )
    }
}

/// True when `bytes` are the bytes from `offset` on of the expansion
/// P_SHA of `secret` and `seed`.
pub open spec fn is_prf_output(
    policy: SecurityPolicy,
    secret: Seq<u8>,
    seed: Seq<u8>,
    offset: nat,
    bytes: Seq<u8>,
) -> bool {
    exists|blocks: nat|
        {
            let stream = #[trigger] p_sha_stream(policy, secret, seed, blocks);
            offset + bytes.len() <= stream.len() && bytes == stream.subrange(
                offset as int,
                offset + bytes.len() as int,
            )
        }
}

/// The keys of one direction of a secure channel, cut from the expansion
/// `stream`: the signing key, the encrypting key, the initialization
/// vector.
pub open spec fn keys_in(policy: SecurityPolicy, stream: Seq<u8>) -> (Seq<u8>, Seq<u8>, Seq<u8>) {
    let s = signing_key_size(policy) as int;
    let e = encrypting_key_size(policy) as int;
    (stream.subrange(0, s), stream.subrange(s, s + e), stream.subrange(s + e, s + e + 16))
}

/// The number of bytes of the expansion that the keys of `policy` take.
pub open spec fn key_material_size(policy: SecurityPolicy) -> nat {
    signing_key_size(policy) + encrypting_key_size(policy) + 16
}

/// True when `keys` are the keys that `policy` derives from the secret
/// `secret` and the seed `seed`.
pub open spec fn are_derived_keys(
    policy: SecurityPolicy,
    secret: Seq<u8>,
    seed: Seq<u8>,
    keys: (Seq<u8>, Seq<u8>, Seq<u8>),
) -> bool {
    exists|material: Seq<u8>|
        material.len() == key_material_size(policy) && is_prf_output(
            policy,
            secret,
            seed,
            0,
            material,
        ) && keys == #[trigger] keys_in(policy, material)
}

/// A shorter expansion is the start of a longer one.
pub proof fn lemma_stream_prefix(
    policy: SecurityPolicy,
    secret: Seq<u8>,
    seed: Seq<u8>,
    n: nat,
    m: nat,
)
    requires
        n <= m,
    ensures
        p_sha_stream(policy, secret, seed, n).len() <= p_sha_stream(policy, secret, seed, m).len(),
        p_sha_stream(policy, secret, seed, n) == p_sha_stream(policy, secret, seed, m).subrange(
            0,
            p_sha_stream(policy, secret, seed, n).len() as int,
        ),
    decreases m - n,
{
    let short = p_sha_stream(policy, secret, seed, n);
    if n == m {
        assert(short =~= short.subrange(0, short.len() as int));
    } else {
        lemma_stream_prefix(policy, secret, seed, n, (m - 1) as nat);
        let middle = p_sha_stream(policy, secret, seed, (m - 1) as nat);
        let long = p_sha_stream(policy, secret, seed, m);
        assert(short =~= long.subrange(0, short.len() as int));
    }
}

/// The output of the pseudo-random function is determined by its
/// arguments: two outputs of one length at one offset are the same.
pub proof fn lemma_prf_output_unique(
    policy: SecurityPolicy,
    secret: Seq<u8>,
    seed: Seq<u8>,
    offset: nat,
    a: Seq<u8>,
    b: Seq<u8>,
)
    requires
        is_prf_output(policy, secret, seed, offset, a),
        is_prf_output(policy, secret, seed, offset, b),
        a.len() == b.len(),
    ensures
        a == b,
{
    let n = choose|blocks: nat|
        {
            let stream = #[trigger] p_sha_stream(policy, secret, seed, blocks);
            offset + a.len() <= stream.len() && a == stream.subrange(
                offset as int,
                offset + a.len() as int,
            )
        };
    let m = choose|blocks: nat|
        {
            let stream = #[trigger] p_sha_stream(policy, secret, seed, blocks);
            offset + b.len() <= stream.len() && b == stream.subrange(
                offset as int,
                offset + b.len() as int,
            )
        };
    if n <= m {
        lemma_stream_prefix(policy, secret, seed, n, m);
    } else {
        lemma_stream_prefix(policy, secret, seed, m, n);
    }
    assert(a =~= b);
}

/// Both ends of a channel derive the same keys: the keys that one end
/// derives for sending are the keys that the other derives, from the same
/// two nonces, for receiving.
pub proof fn lemma_derived_keys_agree(
    policy: SecurityPolicy,
    secret: Seq<u8>,
    seed: Seq<u8>,
    sending: (Seq<u8>, Seq<u8>, Seq<u8>),
    receiving: (Seq<u8>, Seq<u8>, Seq<u8>),
)
    requires
        are_derived_keys(policy, secret, seed, sending),
        are_derived_keys(policy, secret, seed, receiving),
    ensures
        sending == receiving,
{
    let a = choose|material: Seq<u8>|
        material.len() == key_material_size(policy) && is_prf_output(
            policy,
            secret,
            seed,
            0,
            material,
        ) && sending == #[trigger] keys_in(policy, material);
    let b = choose|material: Seq<u8>|
        material.len() == key_material_size(policy) && is_prf_output(
            policy,
            secret,
            seed,
            0,
            material,
        ) && receiving == #[trigger] keys_in(policy, material);
    lemma_prf_output_unique(policy, secret, seed, 0, a, b);
}

/// Writes `src` into `dst` from the index `at` on.
pub fn copy_into(dst: &mut [u8], at: usize, src: &[u8])
    requires
        at + src@.len() <= old(dst)@.len(),
    ensures
        final(dst)@ == old(dst)@.take(at as int) + src@ + old(dst)@.skip(at + src@.len()),
{
    let total = dst.len();
    let mut j: usize = 0;
    assert(dst@ =~= old(dst)@.take(at as int) + src@.take(0) + old(dst)@.skip(at as int));
    while j < src.len()
        invariant
            0 <= j <= src@.len(),
            at + src@.len() <= total,
            dst@.len() == total,
            old(dst)@.len() == total,
            dst@ == old(dst)@.take(at as int) + src@.take(j as int) + old(dst)@.skip(at + j),
        decreases src@.len() - j,
    {
        dst[at + j] = src[j];
        j += 1;
        assert(dst@ =~= old(dst)@.take(at as int) + src@.take(j as int) + old(dst)@.skip(
            at + j,
        ));
    }
    assert(src@.take(src@.len() as int) =~= src@);
}

/// What `store_result` makes of `dst` when a primitive computed `bytes`.
pub open spec fn stored(old_dst: Seq<u8>, at: int, bytes: Seq<u8>) -> Seq<u8> {
    old_dst.take(at) + bytes + old_dst.skip(at + bytes.len())
}

/// Stores what a primitive computed in `dst` from the index `at` on and
/// returns the index behind it. Where the primitive computed nothing, or
/// more than `dst` has room for, the error is `BadUnexpectedError` and
/// `dst` stays as it was.
pub fn store_result(computed: Option<Vec<u8>>, dst: &mut [u8], at: usize) -> (r: Result<
    usize,
    StatusCode,
>)
    ensures
        match computed {
            Some(bytes) => if at + bytes@.len() <= old(dst)@.len() {
                r matches Ok(end) && end == at + bytes@.len() && final(dst)@ == stored(
                    old(dst)@,
                    at as int,
                    bytes@,
                )
            } else {
                r == Err::<usize, StatusCode>(BAD_UNEXPECTED_ERROR) && final(dst)@ == old(dst)@
            },
            None => r == Err::<usize, StatusCode>(BAD_UNEXPECTED_ERROR) && final(dst)@ == old(
                dst,
            )@,
        },
{
    match computed {
        Some(bytes) => {
            let total = dst.len();
            if at > total || bytes.len() > total - at {
                return Err(BAD_UNEXPECTED_ERROR);
            }
            copy_into(dst, at, bytes.as_slice());
            Ok(at + bytes.len())
        },
        None => Err(BAD_UNEXPECTED_ERROR),
    }
}

/// What the check of a symmetric signature says when the primitive
/// computed `computed` for the signed data: the signature is good when it
/// is the computed one.
pub open spec fn signature_verdict(computed: Option<Seq<u8>>, signature: Seq<u8>) -> Result<
    bool,
    StatusCode,
> {
    match computed {
        Some(expected) => if expected == signature {
            Ok(true)
        } else {
            Err(BAD_APPLICATION_SIGNATURE_INVALID)
        },
        None => Err(BAD_UNEXPECTED_ERROR),
    }
}

/// Compares a signature with the one that the primitive computed. Every
/// byte is looked at, wherever the first difference stands.
pub fn check_signature(computed: Option<Vec<u8>>, signature: &[u8]) -> (r: Result<bool, StatusCode>)
    ensures
        r == signature_verdict(
            match computed {
                Some(bytes) => Some(bytes@),
                None => None,
            },
            signature@,
        ),
{
    match computed {
        Some(expected) => {
            if expected.len() != signature.len() {
                return Err(BAD_APPLICATION_SIGNATURE_INVALID);
            }
            let mut same = true;
            let mut i: usize = 0;
            assert(expected@.take(0) =~= signature@.take(0));
            while i < expected.len()
                invariant
                    0 <= i <= expected@.len(),
                    expected@.len() == signature@.len(),
                    same == (expected@.take(i as int) == signature@.take(i as int)),
                decreases expected@.len() - i,
            {
                let ghost a = expected@.take(i as int);
                let ghost b = signature@.take(i as int);
                if expected[i] != signature[i] {
                    same = false;
                }
                i += 1;
                proof {
                    let a1 = expected@.take(i as int);
                    let b1 = signature@.take(i as int);
                    assert(a1 =~= a.push(expected@[i - 1]));
                    assert(b1 =~= b.push(signature@[i - 1]));
                    if a1 == b1 {
                        assert(a1[i - 1] == b1[i - 1]);
                        assert(a =~= a1.take(i - 1));
                        assert(b =~= b1.take(i - 1));
                    }
                }
            }
            assert(expected@ =~= expected@.take(expected@.len() as int));
            assert(signature@ =~= signature@.take(signature@.len() as int));
            if same {
                Ok(true)
            } else {
                Err(BAD_APPLICATION_SIGNATURE_INVALID)
            }
        },
        None => Err(BAD_UNEXPECTED_ERROR),
    }
}

/// A signature that the policy computed itself passes its check.
pub proof fn lemma_own_signature_verifies(policy: SecurityPolicy, key: Seq<u8>, src: Seq<u8>)
    ensures
        signature_verdict(Some(hmac_of(policy, key, src)), hmac_of(policy, key, src)) == Ok::<
            bool,
            StatusCode,
        >(true),
{
}

/// What the check of an asymmetric signature says when the primitive
/// gave the verdict `valid`.
pub open spec fn verification_verdict(valid: Option<bool>) -> Result<(), StatusCode> {
    match valid {
        Some(true) => Ok(()),
        Some(false) => Err(BAD_SECURITY_CHECKS_FAILED),
        None => Err(BAD_UNEXPECTED_ERROR),
    }
}

/// Turns the verdict of the primitive into the result of the check.
pub fn check_verification(valid: Option<bool>) -> (r: Result<(), StatusCode>)
    ensures
        r == verification_verdict(valid),
{
    match valid {
        Some(true) => Ok(()),
        Some(false) => Err(BAD_SECURITY_CHECKS_FAILED),
        None => Err(BAD_UNEXPECTED_ERROR),
    }
}

/// The RSA signature of `data` under `key` in the algorithm of `policy`.
pub open spec fn rsa_signature_of(policy: SecurityPolicy, key: Seq<u8>, data: Seq<u8>) -> Seq<u8> {
    match policy {
        SecurityPolicy::Basic128Rsa15 | SecurityPolicy::Basic256 => rsa_sha1_signature(key, data),
        SecurityPolicy::Basic256Sha256 => rsa_sha256_signature(key, data),
        _ => Seq::empty(),
    }
}

/// Whether `signature` is the RSA signature of `data` by the owner of
/// `key` in the algorithm of `policy`.
pub open spec fn rsa_verifies(
    policy: SecurityPolicy,
    key: Seq<u8>,
    data: Seq<u8>,
    signature: Seq<u8>,
) -> bool {
    match policy {
        SecurityPolicy::Basic128Rsa15 | SecurityPolicy::Basic256 => rsa_sha1_verifies(
            key,
            data,
            signature,
        ),
        SecurityPolicy::Basic256Sha256 => rsa_sha256_verifies(key, data, signature),
        _ => false,
    }
}

/// The plaintext of the RSA block `block` in the padding of `policy`.
pub open spec fn rsa_plaintext_of(policy: SecurityPolicy, key: Seq<u8>, block: Seq<u8>) -> Seq<u8> {
    match policy {
        SecurityPolicy::Basic128Rsa15 => rsa_pkcs1_plaintext(key, block),
        _ => rsa_oaep_plaintext(key, block),
    }
}

/// The number of blocks of at most `block` bytes that `len` bytes fall
/// into.
pub open spec fn blocks_needed(len: nat, block: nat) -> nat
    decreases len,
{
    if len == 0 || block == 0 {
        0
    } else if len <= block {
        1
    } else {
        1 + blocks_needed((len - block) as nat, block)
    }
}

/// The plaintexts of the blocks of `size` bytes that `src` is made of,
/// one after the other.
pub open spec fn decrypted_blocks(
    policy: SecurityPolicy,
    key: Seq<u8>,
    src: Seq<u8>,
    size: nat,
) -> Seq<u8>
    decreases src.len(),
{
    if size == 0 || src.len() < size {
        Seq::empty()
    } else {
        rsa_plaintext_of(policy, key, src.take(size as int)) + decrypted_blocks(
            policy,
            key,
            src.skip(size as int),
            size,
        )
    }
}

/// The ciphertext of `data` in the symmetric cipher of `policy`.
pub open spec fn aes_ciphertext_of(
    policy: SecurityPolicy,
    key: Seq<u8>,
    iv: Seq<u8>,
    data: Seq<u8>,
) -> Seq<u8> {
    match policy {
        SecurityPolicy::Basic128Rsa15 => aes_128_cbc_ciphertext(key, iv, data),
        _ => aes_256_cbc_ciphertext(key, iv, data),
    }
}

/// The plaintext of `data` in the symmetric cipher of `policy`.
pub open spec fn aes_plaintext_of(
    policy: SecurityPolicy,
    key: Seq<u8>,
    iv: Seq<u8>,
    data: Seq<u8>,
) -> Seq<u8> {
    match policy {
        SecurityPolicy::Basic128Rsa15 => aes_128_cbc_plaintext(key, iv, data),
        _ => aes_256_cbc_plaintext(key, iv, data),
    }
}

/// True when key, IV and data have the sizes that the cipher of `policy`
/// takes.
pub open spec fn fits_cipher(
    policy: SecurityPolicy,
    key: Seq<u8>,
    iv: Seq<u8>,
    data: Seq<u8>,
) -> bool {
    &&& is_secure(policy)
    &&& key.len() == encrypting_key_size(policy)
    &&& iv.len() == 16
    &&& data.len() + 16 <= i32::MAX
}

impl AesKey {
    /// The key `value` for the cipher of `security_policy`.
    pub fn new(security_policy: SecurityPolicy, value: &[u8]) -> (r: AesKey)
        ensures
            r.value@ == value@,
            r.security_policy == security_policy,
    {
        AesKey { value: slice_to_vec(value), security_policy }
    }

    /// Tells whether key, IV and data have the sizes that the cipher takes.
    fn fits(&self, iv: &[u8], data: &[u8]) -> (r: bool)
        ensures
            r == fits_cipher(self.security_policy, self.value@, iv@, data@),
    {
        self.security_policy.is_secure() && self.value.len()
            == self.security_policy.symmetric_key_size() && iv.len() == 16 && data.len()
            <= 2147483631
    }

    /// Encrypts `src` into the front of `dst` and returns the length of
    /// the ciphertext.
    pub fn encrypt(&self, src: &[u8], iv: &[u8], dst: &mut [u8]) -> (r: Result<usize, StatusCode>)
        ensures
            final(dst)@.len() == old(dst)@.len(),
            !is_secure(self.security_policy) ==> r == Err::<usize, StatusCode>(
                BAD_SECURITY_POLICY_REJECTED,
            ),
            is_secure(self.security_policy) && !fits_cipher(
                self.security_policy,
                self.value@,
                iv@,
                src@,
            ) ==> r == Err::<usize, StatusCode>(BAD_UNEXPECTED_ERROR),
            match r {
                Ok(n) => n == aes_ciphertext_of(self.security_policy, self.value@, iv@, src@).len()
                    && final(dst)@ == stored(
                    old(dst)@,
                    0,
                    aes_ciphertext_of(self.security_policy, self.value@, iv@, src@),
                ),
                Err(e) => e == failure_of(self.security_policy)
                    && final(dst)@ == old(dst)@,
            },
    {
        if !self.security_policy.is_secure() {
            return Err(BAD_SECURITY_POLICY_REJECTED);
        }
        if !self.fits(iv, src) {
            return Err(BAD_UNEXPECTED_ERROR);
        }
        let computed = match self.security_policy {
            SecurityPolicy::Basic128Rsa15 => aes_128_cbc_encrypt(self.value.as_slice(), iv, src),
            _ => aes_256_cbc_encrypt(self.value.as_slice(), iv, src),
        };
        store_result(computed, dst, 0)
    }

    /// Decrypts `src` into the front of `dst` and returns the length of
    /// the plaintext.
    pub fn decrypt(&self, src: &[u8], iv: &[u8], dst: &mut [u8]) -> (r: Result<usize, StatusCode>)
        ensures
            final(dst)@.len() == old(dst)@.len(),
            !is_secure(self.security_policy) ==> r == Err::<usize, StatusCode>(
                BAD_SECURITY_POLICY_REJECTED,
            ),
            is_secure(self.security_policy) && !fits_cipher(
                self.security_policy,
                self.value@,
                iv@,
                src@,
            ) ==> r == Err::<usize, StatusCode>(BAD_UNEXPECTED_ERROR),
            match r {
                Ok(n) => n == aes_plaintext_of(self.security_policy, self.value@, iv@, src@).len()
                    && final(dst)@ == stored(
                    old(dst)@,
                    0,
                    aes_plaintext_of(self.security_policy, self.value@, iv@, src@),
                ),
                Err(e) => e == failure_of(self.security_policy)
                    && final(dst)@ == old(dst)@,
            },
    {
        if !self.security_policy.is_secure() {
            return Err(BAD_SECURITY_POLICY_REJECTED);
        }
        if !self.fits(iv, src) {
            return Err(BAD_UNEXPECTED_ERROR);
        }
        let computed = match self.security_policy {
            SecurityPolicy::Basic128Rsa15 => aes_128_cbc_decrypt(self.value.as_slice(), iv, src),
            _ => aes_256_cbc_decrypt(self.value.as_slice(), iv, src),
        };
        store_result(computed, dst, 0)
    }
}

/// The block numbered `k` of the plaintext `src` when it is cut into
/// blocks of `size` bytes: the last block is what is left.
pub open spec fn plain_block(src: Seq<u8>, size: nat, k: nat) -> Seq<u8> {
    src.subrange(
        (k * size) as int,
        if (k + 1) * size < src.len() {
            ((k + 1) * size) as int
        } else {
            src.len() as int
        },
    )
}

/// Cuts the block numbered `k` from the plaintext `src`.
pub fn plain_block_at<'a>(src: &'a [u8], size: usize, k: usize) -> (r: &'a [u8])
    requires
        size > 0,
        k * size < src@.len(),
    ensures
        r@ == plain_block(src@, size as nat, k as nat),
        r@.len() == (if size < src@.len() - k * size {
            size as int
        } else {
            src@.len() - k * size
        }),
{
    let length = src.len();
    assert((k + 1) * size == k * size + size) by (nonlinear_arith);
    let start = k * size;
    let end = if size < length - start {
        start + size
    } else {
        length
    };
    slice_subrange(src, start, end)
}

/// What becomes of what the asymmetric cipher gave for a block of
/// plaintext under a key of `key_size` bytes: a block of ciphertext has the
/// size of the key, and anything else is an unexpected error.
pub open spec fn cipher_block_of(computed: Option<Seq<u8>>, key_size: nat) -> Result<
    Seq<u8>,
    StatusCode,
> {
    match computed {
        Some(bytes) => if bytes.len() == key_size {
            Ok(bytes)
        } else {
            Err(BAD_UNEXPECTED_ERROR)
        },
        None => Err(BAD_UNEXPECTED_ERROR),
    }
}

/// Takes what the asymmetric cipher gave for a block of plaintext.
pub fn cipher_block(computed: Option<Vec<u8>>, key_size: usize) -> (r: Result<Vec<u8>, StatusCode>)
    ensures
        match cipher_block_of(
            match computed {
                Some(bytes) => Some(bytes@),
                None => None,
            },
            key_size as nat,
        ) {
            Ok(block) => r matches Ok(bytes) && bytes@ == block,
            Err(e) => r matches Err(f) && f == e,
        },
{
    match computed {
        Some(bytes) => {
            if bytes.len() == key_size {
                Ok(bytes)
            } else {
                Err(BAD_UNEXPECTED_ERROR)
            }
        },
        None => Err(BAD_UNEXPECTED_ERROR),
    }
}

/// The paddings of the asymmetric ciphers.
#[derive(Debug, Clone, Copy, PartialEq, Eq, Structural)]
pub enum RsaPadding {
    /// PKCS#1 v1.5, which takes 11 bytes of a block.
    Pkcs1,
    /// OAEP with SHA-1, which takes 42 bytes of a block.
    OaepSha1,
}

/// Stores a signature that a primitive computed in the buffer made for
/// it. Where the primitive computed nothing, or a signature of another
/// length than the buffer, the error is `BadUnexpectedError` and the
/// buffer stays as it was.
pub fn store_signature(computed: Option<Vec<u8>>, signature: &mut [u8]) -> (r: Result<
    (),
    StatusCode,
>)
    ensures
        match computed {
            Some(bytes) => if bytes@.len() == old(signature)@.len() {
                r == Ok::<(), StatusCode>(()) && final(signature)@ == bytes@
            } else {
                r == Err::<(), StatusCode>(BAD_UNEXPECTED_ERROR) && final(signature)@ == old(
                    signature,
                )@
            },
            None => r == Err::<(), StatusCode>(BAD_UNEXPECTED_ERROR) && final(signature)@ == old(
                signature,
            )@,
        },
{
    match computed {
        Some(bytes) => {
            if bytes.len() != signature.len() {
                return Err(BAD_UNEXPECTED_ERROR);
            }
            copy_into(signature, 0, bytes.as_slice());
            assert(signature@ =~= bytes@);
            Ok(())
        },
        None => Err(BAD_UNEXPECTED_ERROR),
    }
}

/// Cuts the keys of one direction of a channel from the key material that
/// the pseudo-random function made of the nonces.
pub fn keys_from_material(policy: SecurityPolicy, material: &[u8]) -> (r: Result<
    (Vec<u8>, AesKey, Vec<u8>),
    StatusCode,
>)
    ensures
        !is_secure(policy) ==> (r matches Err(e) && e == BAD_SECURITY_POLICY_REJECTED),
        is_secure(policy) && material@.len() < key_material_size(policy) ==> (r matches Err(e)
            && e == BAD_UNEXPECTED_ERROR),
        is_secure(policy) && material@.len() >= key_material_size(policy) ==> (r matches Ok(
            (signing_key, encrypting_key, iv),
        ) && encrypting_key.security_policy == policy && (
            signing_key@,
            encrypting_key.value@,
            iv@,
        ) == keys_in(policy, material@)),
{
    if !policy.is_secure() {
        return Err(BAD_SECURITY_POLICY_REJECTED);
    }
    let signing_key_length = policy.derived_signature_key_size();
    let encrypting_key_length = policy.symmetric_key_size();
    let encrypting_block_size = policy.plain_block_size();
    if material.len() < signing_key_length + encrypting_key_length + encrypting_block_size {
        return Err(BAD_UNEXPECTED_ERROR);
    }
    let signing_key = slice_to_vec(slice_subrange(material, 0, signing_key_length));
    let encrypting_key = AesKey::new(
        policy,
        slice_subrange(material, signing_key_length, signing_key_length + encrypting_key_length),
    );
    let iv = slice_to_vec(
        slice_subrange(
            material,
            signing_key_length + encrypting_key_length,
            signing_key_length + encrypting_key_length + encrypting_block_size,
        ),
    );
    Ok((signing_key, encrypting_key, iv))
}

impl SecurityPolicy {
    /// The HMAC of `data` under `key` in the algorithm of the policy.
    fn hmac(&self, key: &[u8], data: &[u8]) -> (r: Option<Vec<u8>>)
        requires
            is_secure(*self),
        ensures
            r matches Some(mac) ==> mac@ == hmac_of(*self, key@, data@),
            key@.len() > i32::MAX ==> r is None,
    {
        if key.len() > 2147483647 {
            return None;
        }
        match self {
            SecurityPolicy::Basic256Sha256 => hmac_sha256(key, data),
            _ => hmac_sha1(key, data),
        }
    }

    /// The first `length` bytes of the expansion P_SHA of `secret` and
    /// `seed`.
    fn p_sha(&self, secret: &[u8], seed: &[u8], length: usize) -> (r: Result<Vec<u8>, StatusCode>)
        requires
            is_secure(*self),
        ensures
            match r {
                Ok(bytes) => bytes@.len() == length && is_prf_output(
                    *self,
                    secret@,
                    seed@,
                    0,
                    bytes@,
                ),
                Err(e) => e == BAD_UNEXPECTED_ERROR,
            },
    {
        let mut result: Vec<u8> = Vec::new();
        let mut a: Vec<u8> = slice_to_vec(seed);
        let ghost mut blocks: nat = 0;
        while result.len() < length
            invariant
                is_secure(*self),
                a@ == p_sha_a(*self, secret@, seed@, blocks),
                result@ == p_sha_stream(*self, secret@, seed@, blocks),
            decreases
                    (if result@.len() < length {
                        length - result@.len()
                    } else {
                        0
                    }),
        {
            a = match self.hmac(secret, a.as_slice()) {
                Some(next) => next,
                None => {
                    return Err(BAD_UNEXPECTED_ERROR);
                },
            };
            let mut input = slice_to_vec(a.as_slice());
            input.extend_from_slice(seed);
            assert(input@ =~= a@ + seed@);
            let block = match self.hmac(secret, input.as_slice()) {
                Some(block) => block,
                None => {
                    return Err(BAD_UNEXPECTED_ERROR);
                },
            };
            if block.len() == 0 {
                return Err(BAD_UNEXPECTED_ERROR);
            }
            let ghost before = result@;
            result.extend_from_slice(block.as_slice());
            assert(result@ =~= before + block@);
            proof {
                blocks = blocks + 1;
            }
        }
        let ghost stream = result@;
        result.truncate(length);
        assert(result@ =~= stream.subrange(0, 0 + result@.len() as int));
        Ok(result)
    }

    /// The pseudo-random function: `length` bytes from `offset` on of
    /// the expansion P_SHA of `secret` and `seed`.
    pub fn prf(&self, secret: &[u8], seed: &[u8], length: usize, offset: usize) -> (r: Result<
        Vec<u8>,
        StatusCode,
    >)
        ensures
            !is_secure(*self) ==> (r matches Err(e) && e == BAD_SECURITY_POLICY_REJECTED),
            is_secure(*self) ==> match r {
                Ok(bytes) => bytes@.len() == length && is_prf_output(
                    *self,
                    secret@,
                    seed@,
                    offset as nat,
                    bytes@,
                ),
                Err(e) => e == BAD_UNEXPECTED_ERROR,
            },
    {
        if !self.is_secure() {
            return Err(BAD_SECURITY_POLICY_REJECTED);
        }
        if length > usize::MAX - offset {
            return Err(BAD_UNEXPECTED_ERROR);
        }
        let result = self.p_sha(secret, seed, offset + length)?;
        let bytes = slice_to_vec(slice_subrange(result.as_slice(), offset, offset + length));
        proof {
            let n = choose|blocks: nat|
                {
                    let stream = #[trigger] p_sha_stream(*self, secret@, seed@, blocks);
                    0 + result@.len() <= stream.len() && result@ == stream.subrange(
                        0,
                        0 + result@.len() as int,
                    )
                };
            let stream = p_sha_stream(*self, secret@, seed@, n);
            assert(bytes@ =~= stream.subrange(offset as int, offset + bytes@.len() as int));
        }
        Ok(bytes)
    }

    /// Derives the keys that secure the messages of one direction of a
    /// channel from the two nonces: the signing key, the encrypting key
    /// and the initialization vector, cut in this order from the output of
    /// the pseudo-random function with `nonce1` as secret and `nonce2` as
    /// seed.
    pub fn make_secure_channel_keys(&self, nonce1: &[u8], nonce2: &[u8]) -> (r: Result<
        (Vec<u8>, AesKey, Vec<u8>),
        StatusCode,
    >)
        ensures
            !is_secure(*self) ==> (r matches Err(e) && e == BAD_SECURITY_POLICY_REJECTED),
            is_secure(*self) ==> match r {
                Ok((signing_key, encrypting_key, iv)) => encrypting_key.security_policy == *self
                    && are_derived_keys(
                    *self,
                    nonce1@,
                    nonce2@,
                    (signing_key@, encrypting_key.value@, iv@),
                ),
                Err(e) => e == BAD_UNEXPECTED_ERROR,
            },
    {
        if !self.is_secure() {
            return Err(BAD_SECURITY_POLICY_REJECTED);
        }
        let signing_key_length = self.derived_signature_key_size();
        let encrypting_key_length = self.symmetric_key_size();
        let encrypting_block_size = self.plain_block_size();
        let material = self.prf(
            nonce1,
            nonce2,
            signing_key_length + encrypting_key_length + encrypting_block_size,
            0,
        )?;
        let keys = keys_from_material(*self, material.as_slice());
        proof {
            assert(keys_in(*self, material@) == keys_in(*self, material@));
        }
        keys
    }

    /// Signs `data` with the private key and writes the signature to the
    /// front of `signature`. Returns the length of the signature.
    pub fn asymmetric_sign(
        &self,
        signing_key: &PrivateKey,
        data: &[u8],
        signature: &mut [u8],
    ) -> (r: Result<usize, StatusCode>)
        ensures
            !is_secure(*self) ==> (r matches Err(e) && e == BAD_SECURITY_POLICY_REJECTED),
            match r {
                Ok(n) => is_secure(*self) && n == rsa_signature_of(*self, signing_key@, data@).len()
                    && final(signature)@ == stored(
                    old(signature)@,
                    0,
                    rsa_signature_of(*self, signing_key@, data@),
                ),
                Err(e) => e == failure_of(*self)
                    && final(signature)@ == old(signature)@,
            },
    {
        let computed = match self {
            SecurityPolicy::Basic128Rsa15 | SecurityPolicy::Basic256 => rsa_sign_sha1(
                signing_key.der.as_slice(),
                data,
            ),
            SecurityPolicy::Basic256Sha256 => rsa_sign_sha256(signing_key.der.as_slice(), data),
            _ => {
                return Err(BAD_SECURITY_POLICY_REJECTED);
            },
        };
        store_result(computed, signature, 0)
    }

    /// Checks the signature of `data` against the public key of the
    /// signer. A signature that does not match fails the security checks.
    pub fn asymmetric_verify_signature(
        &self,
        verification_key: &PublicKey,
        data: &[u8],
        signature: &[u8],
    ) -> (r: Result<(), StatusCode>)
        ensures
            !is_secure(*self) ==> r == Err::<(), StatusCode>(BAD_SECURITY_POLICY_REJECTED),
            is_secure(*self) ==> r == verification_verdict(
                Some(rsa_verifies(*self, verification_key@, data@, signature@)),
            ) || r == Err::<(), StatusCode>(BAD_UNEXPECTED_ERROR),
    {
        let valid = match self {
            SecurityPolicy::Basic128Rsa15 | SecurityPolicy::Basic256 => rsa_verify_sha1(
                verification_key.der.as_slice(),
                data,
                signature,
            ),
            SecurityPolicy::Basic256Sha256 => rsa_verify_sha256(
                verification_key.der.as_slice(),
                data,
                signature,
            ),
            _ => {
                return Err(BAD_SECURITY_POLICY_REJECTED);
            },
        };
        check_verification(valid)
    }

    /// The padding of the asymmetric cipher, and the number of bytes of
    /// plaintext that go into one block under a key of `key_size` bytes.
    pub fn padding_and_encrypted_data_size_for_key(&self, key_size: usize) -> (r: (
        RsaPadding,
        usize,
    ))
        requires
            is_secure(*self),
            key_size >= padding_size(*self),
        ensures
            r.0 == (if *self is Basic128Rsa15 {
                RsaPadding::Pkcs1
            } else {
                RsaPadding::OaepSha1
            }),
            r.1 == key_size - padding_size(*self),
    {
        match self {
            SecurityPolicy::Basic128Rsa15 => (RsaPadding::Pkcs1, key_size - 11),
            _ => (RsaPadding::OaepSha1, key_size - 42),
        }
    }

    /// Encrypts one block of plaintext with the public key in the padding
    /// of the policy.
    fn encrypt_block(&self, encryption_key: &PublicKey, block: &[u8]) -> (r: Option<Vec<u8>>)
        requires
            is_secure(*self),
            block@.len() <= i32::MAX,
    {
        match self {
            SecurityPolicy::Basic128Rsa15 => rsa_encrypt_pkcs1(
                encryption_key.der.as_slice(),
                block,
            ),
            _ => rsa_encrypt_oaep(encryption_key.der.as_slice(), block),
        }
    }

    /// Encrypts `src` with the public key, block by block, into the front
    /// of `dst`, and returns the length of the ciphertext. The blocks of
    /// plaintext are `plain_block(src, size, 0)`, `plain_block(src, size,
    /// 1)` and so on, where `size` is the size of the key less the
    /// padding; each is handed to the cipher by `plain_block_at`, and what
    /// the cipher gives for it is taken by `cipher_block` and stored behind
    /// the block before.
    pub fn asymmetric_encrypt(&self, encryption_key: &PublicKey, src: &[u8], dst: &mut [u8]) -> (r:
        Result<usize, StatusCode>)
        ensures
            final(dst)@.len() == old(dst)@.len(),
            !is_secure(*self) ==> r == Err::<usize, StatusCode>(BAD_SECURITY_POLICY_REJECTED)
                && final(dst)@ == old(dst)@,
            is_secure(*self) ==> match r {
                Ok(n) => {
                    let key_size = rsa_public_size(encryption_key@);
                    &&& key_size > padding_size(*self)
                    &&& n == blocks_needed(
                        src@.len(),
                        (key_size - padding_size(*self)) as nat,
                    ) * key_size
                    &&& n <= final(dst)@.len()
                    &&& final(dst)@.skip(n as int) == old(dst)@.skip(n as int)
                },
                Err(e) => e == BAD_UNEXPECTED_ERROR,
            },
    {
        if !self.is_secure() {
            return Err(BAD_SECURITY_POLICY_REJECTED);
        }
        let key_size = match encryption_key.size() {
            Some(size) => size,
            None => {
                return Err(BAD_UNEXPECTED_ERROR);
            },
        };
        let padding: usize = match self {
            SecurityPolicy::Basic128Rsa15 => 11,
            _ => 42,
        };
        if key_size <= padding || key_size > 2147483647 {
            return Err(BAD_UNEXPECTED_ERROR);
        }
        let (_, encrypted_data_size) = self.padding_and_encrypted_data_size_for_key(key_size);
        let total = dst.len();
        let length = src.len();
        let mut src_idx: usize = 0;
        let mut dst_idx: usize = 0;
        let mut k: usize = 0;
        assert(0 * key_size == 0) by (nonlinear_arith);
        assert(0 * encrypted_data_size == 0) by (nonlinear_arith);
        while src_idx < length
            invariant
                is_secure(*self),
                length == src@.len(),
                src_idx <= length,
                dst_idx <= total,
                dst@.len() == total,
                old(dst)@.len() == total,
                key_size == rsa_public_size(encryption_key@),
                0 < encrypted_data_size <= key_size <= 2147483647,
                src_idx < length ==> src_idx == k * encrypted_data_size,
                k <= src_idx,
                dst_idx == k * key_size,
                blocks_needed(src@.len(), encrypted_data_size as nat) == k + blocks_needed(
                    (src@.len() - src_idx) as nat,
                    encrypted_data_size as nat,
                ),
                dst@.skip(dst_idx as int) == old(dst)@.skip(dst_idx as int),
            decreases length - src_idx,
        {
            let block = plain_block_at(src, encrypted_data_size, k);
            let encrypted = cipher_block(self.encrypt_block(encryption_key, block), key_size)?;
            let ghost before = dst@;
            let ghost at = dst_idx;
            dst_idx = store_result(Some(encrypted), dst, dst_idx)?;
            proof {
                assert((k + 1) * key_size == k * key_size + key_size) by (nonlinear_arith);
                assert((k + 1) * encrypted_data_size == k * encrypted_data_size
                    + encrypted_data_size) by (nonlinear_arith);
                assert(dst@.skip(dst_idx as int) =~= before.skip(at as int).skip(key_size as int));
                assert(old(dst)@.skip(dst_idx as int) =~= old(dst)@.skip(at as int).skip(
                    key_size as int,
                ));
            }
            src_idx = src_idx + block.len();
            k = k + 1;
        }
        Ok(dst_idx)
    }

    /// Decrypts `src`, which is made of blocks of the size of the key,
    /// with the private key into the front of `dst`, and returns the
    /// length of the plaintext. A source that is no whole number of
    /// blocks fails the security checks.
    pub fn asymmetric_decrypt(&self, private_key: &PrivateKey, src: &[u8], dst: &mut [u8]) -> (r:
        Result<usize, StatusCode>)
        ensures
            final(dst)@.len() == old(dst)@.len(),
            !is_secure(*self) ==> r == Err::<usize, StatusCode>(BAD_SECURITY_POLICY_REJECTED)
                && final(dst)@ == old(dst)@,
            is_secure(*self) ==> match r {
                Ok(n) => {
                    let plain = decrypted_blocks(
                        *self,
                        private_key@,
                        src@,
                        rsa_private_size(private_key@),
                    );
                    &&& rsa_private_size(private_key@) > 0
                    &&& src@.len() % rsa_private_size(private_key@) == 0
                    &&& n == plain.len()
                    &&& final(dst)@ == stored(old(dst)@, 0, plain)
                },
                Err(e) => e == BAD_SECURITY_CHECKS_FAILED || e == BAD_UNEXPECTED_ERROR,
            },
    {
        if !self.is_secure() {
            return Err(BAD_SECURITY_POLICY_REJECTED);
        }
        let key_size = match private_key.size() {
            Some(size) => size,
            None => {
                return Err(BAD_SECURITY_CHECKS_FAILED);
            },
        };
        if key_size == 0 || key_size > 2147483647 {
            return Err(BAD_SECURITY_CHECKS_FAILED);
        }
        let total = dst.len();
        let mut src_idx: usize = 0;
        let mut dst_idx: usize = 0;
        let ghost mut written: Seq<u8> = Seq::empty();
        let ghost mut count: int = 0;
        proof {
            assert(0 * key_size == 0) by (nonlinear_arith);
            assert(src@.skip(0) =~= src@);
            assert(dst@ =~= stored(old(dst)@, 0, written));
            assert(written + decrypted_blocks(*self, private_key@, src@, key_size as nat)
                =~= decrypted_blocks(*self, private_key@, src@, key_size as nat));
        }
        while src_idx < src.len()
            invariant
                is_secure(*self),
                src_idx <= src@.len(),
                dst_idx <= total,
                dst@.len() == total,
                old(dst)@.len() == total,
                key_size == rsa_private_size(private_key@),
                0 < key_size <= 2147483647,
                dst_idx == written.len(),
                src_idx == count * key_size,
                dst@ == stored(old(dst)@, 0, written),
                decrypted_blocks(*self, private_key@, src@, key_size as nat) == written
                    + decrypted_blocks(
                    *self,
                    private_key@,
                    src@.skip(src_idx as int),
                    key_size as nat,
                ),
            decreases src@.len() - src_idx,
        {
            if src.len() - src_idx < key_size {
                return Err(BAD_SECURITY_CHECKS_FAILED);
            }
            let block = slice_subrange(src, src_idx, src_idx + key_size);
            let decrypted = match self {
                SecurityPolicy::Basic128Rsa15 => rsa_decrypt_pkcs1(
                    private_key.der.as_slice(),
                    block,
                ),
                _ => rsa_decrypt_oaep(private_key.der.as_slice(), block),
            };
            if decrypted.is_none() {
                return Err(BAD_SECURITY_CHECKS_FAILED);
            }
            let ghost plain = decrypted.unwrap()@;
            let ghost rest = src@.skip(src_idx as int);
            dst_idx = store_result(decrypted, dst, dst_idx)?;
            src_idx = src_idx + key_size;
            proof {
                assert(rest.take(key_size as int) =~= block@);
                assert(rest.skip(key_size as int) =~= src@.skip(src_idx as int));
                assert(dst@ =~= stored(old(dst)@, 0, written + plain));
                assert(written + (plain + decrypted_blocks(
                    *self,
                    private_key@,
                    src@.skip(src_idx as int),
                    key_size as nat,
                )) =~= (written + plain) + decrypted_blocks(
                    *self,
                    private_key@,
                    src@.skip(src_idx as int),
                    key_size as nat,
                ));
                written = written + plain;
                assert((count + 1) * key_size == count * key_size + key_size) by (nonlinear_arith);
                count = count + 1;
            }
        }
        proof {
            vstd::arithmetic::div_mod::lemma_mod_multiples_basic(count, key_size as int);
            assert(src@.skip(src_idx as int).len() == 0);
            assert(written + Seq::<u8>::empty() =~= written);
        }
        Ok(dst_idx)
    }

    /// Signs `src` under `key` and writes the signature to `signature`,
    /// which has the length of the signature.
    pub fn symmetric_sign(&self, key: &[u8], src: &[u8], signature: &mut [u8]) -> (r: Result<
        (),
        StatusCode,
    >)
        ensures
            !is_secure(*self) ==> r == Err::<(), StatusCode>(BAD_SECURITY_POLICY_REJECTED),
            match r {
                Ok(_) => is_secure(*self) && final(signature)@ == hmac_of(*self, key@, src@),
                Err(e) => e == failure_of(*self)
                    && final(signature)@ == old(signature)@,
            },
    {
        if !self.is_secure() {
            return Err(BAD_SECURITY_POLICY_REJECTED);
        }
        let computed = self.hmac(key, src);
        store_signature(computed, signature)
    }

    /// Checks that `signature` is the signature of `src` under `key`. A
    /// signature that does not match is an invalid application signature.
    pub fn symmetric_verify_signature(&self, key: &[u8], src: &[u8], signature: &[u8]) -> (r:
        Result<bool, StatusCode>)
        ensures
            !is_secure(*self) ==> r == Err::<bool, StatusCode>(BAD_SECURITY_POLICY_REJECTED),
            is_secure(*self) ==> r == signature_verdict(
                Some(hmac_of(*self, key@, src@)),
                signature@,
            ) || r == Err::<bool, StatusCode>(BAD_UNEXPECTED_ERROR),
    {
        if !self.is_secure() {
            return Err(BAD_SECURITY_POLICY_REJECTED);
        }
        let computed = self.hmac(key, src);
        check_signature(computed, signature)
    }

    /// Encrypts `src` into the front of `dst` with the symmetric cipher
    /// of the key and returns the length of the ciphertext.
    pub fn symmetric_encrypt(&self, key: &AesKey, iv: &[u8], src: &[u8], dst: &mut [u8]) -> (r:
        Result<usize, StatusCode>)
        ensures
            final(dst)@.len() == old(dst)@.len(),
            !is_secure(key.security_policy) ==> r == Err::<usize, StatusCode>(
                BAD_SECURITY_POLICY_REJECTED,
            ),
            match r {
                Ok(n) => n == aes_ciphertext_of(key.security_policy, key.value@, iv@, src@).len()
                    && final(dst)@ == stored(
                    old(dst)@,
                    0,
                    aes_ciphertext_of(key.security_policy, key.value@, iv@, src@),
                ),
                Err(e) => e == failure_of(key.security_policy)
                    && final(dst)@ == old(dst)@,
            },
    {
        key.encrypt(src, iv, dst)
    }

    /// Decrypts `src` into the front of `dst` with the symmetric cipher
    /// of the key and returns the length of the plaintext.
    pub fn symmetric_decrypt(&self, key: &AesKey, iv: &[u8], src: &[u8], dst: &mut [u8]) -> (r:
        Result<usize, StatusCode>)
        ensures
            final(dst)@.len() == old(dst)@.len(),
            !is_secure(key.security_policy) ==> r == Err::<usize, StatusCode>(
                BAD_SECURITY_POLICY_REJECTED,
            ),
            match r {
                Ok(n) => n == aes_plaintext_of(key.security_policy, key.value@, iv@, src@).len()
                    && final(dst)@ == stored(
                    old(dst)@,
                    0,
                    aes_plaintext_of(key.security_policy, key.value@, iv@, src@),
                ),
                Err(e) => e == failure_of(key.security_policy)
                    && final(dst)@ == old(dst)@,
            },
    {
        key.decrypt(src, iv, dst)
    }
}

} // verus!
