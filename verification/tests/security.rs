use std::str::FromStr;

use openssl::ec::{EcGroup, EcKey};
use openssl::hash::MessageDigest;
use openssl::nid::Nid;
use openssl::pkey::PKey;
use openssl::rsa::Rsa;
use openssl::sign::Signer;

use opcua::security_policy::{
    check_signature, check_verification, cipher_block, copy_into, keys_from_material,
    plain_block_at, store_result, store_signature, AesKey, PrivateKey, PublicKey, RsaPadding,
    SecurityPolicy,
};
use opcua::status_codes::{
    is_good, BAD_APPLICATION_SIGNATURE_INVALID, BAD_DECODING_ERROR, BAD_SECURITY_CHECKS_FAILED,
    BAD_SECURITY_POLICY_REJECTED, BAD_UNEXPECTED_ERROR, GOOD,
};

const SECURE: [SecurityPolicy; 3] =
    [SecurityPolicy::Basic128Rsa15, SecurityPolicy::Basic256, SecurityPolicy::Basic256Sha256];

fn hex(text: &str) -> Vec<u8> {
    let digits: Vec<u8> = text.bytes().map(|c| (c as char).to_digit(16).unwrap() as u8).collect();
    digits.chunks(2).map(|pair| pair[0] * 16 + pair[1]).collect()
}

fn key_pair(bits: u32) -> (PrivateKey, PublicKey) {
    let rsa = Rsa::generate(bits).unwrap();
    let private = PrivateKey { der: rsa.private_key_to_der().unwrap() };
    let public = PublicKey { der: rsa.public_key_to_der().unwrap() };
    (private, public)
}

fn openssl_hmac(digest: MessageDigest, key: &[u8], data: &[u8]) -> Vec<u8> {
    let pkey = PKey::hmac(key).unwrap();
    let mut signer = Signer::new(digest, &pkey).unwrap();
    signer.update(data).unwrap();
    signer.sign_to_vec().unwrap()
}

/// The first `length` bytes of P_SHA, computed step by step.
fn p_sha(digest: MessageDigest, secret: &[u8], seed: &[u8], length: usize) -> Vec<u8> {
    let mut out = Vec::new();
    let mut a = seed.to_vec();
    while out.len() < length {
        a = openssl_hmac(digest, secret, &a);
        let mut input = a.clone();
        input.extend_from_slice(seed);
        out.extend_from_slice(&openssl_hmac(digest, secret, &input));
    }
    out.truncate(length);
    out
}

#[test]
fn status_codes_tell_good_from_bad() {
    assert!(is_good(GOOD));
    assert!(!is_good(BAD_DECODING_ERROR));
    assert_eq!(BAD_DECODING_ERROR, 0x8007_0000);
    assert_eq!(BAD_SECURITY_POLICY_REJECTED, 0x8055_0000);
}

#[test]
fn policies_by_uri_and_name() {
    assert_eq!(
        SecurityPolicy::from_uri("http://opcfoundation.org/UA/SecurityPolicy#None"),
        SecurityPolicy::NoSecurity
    );
    assert_eq!(
        SecurityPolicy::from_uri("http://opcfoundation.org/UA/SecurityPolicy#Basic128Rsa15"),
        SecurityPolicy::Basic128Rsa15
    );
    assert_eq!(
        SecurityPolicy::from_uri("http://opcfoundation.org/UA/SecurityPolicy#Basic256"),
        SecurityPolicy::Basic256
    );
    assert_eq!(
        SecurityPolicy::from_uri("http://opcfoundation.org/UA/SecurityPolicy#Basic256Sha256"),
        SecurityPolicy::Basic256Sha256
    );
    assert_eq!(SecurityPolicy::from_uri("Basic256"), SecurityPolicy::Unknown);
    assert_eq!(SecurityPolicy::from_uri(""), SecurityPolicy::Unknown);
    assert_eq!(
        SecurityPolicy::Basic256Sha256.to_uri(),
        "http://opcfoundation.org/UA/SecurityPolicy#Basic256Sha256"
    );
    assert_eq!(
        SecurityPolicy::NoSecurity.to_uri(),
        "http://opcfoundation.org/UA/SecurityPolicy#None"
    );
    for policy in SECURE {
        assert_eq!(SecurityPolicy::from_uri(policy.to_uri()), policy);
        assert_eq!(SecurityPolicy::from_str(&policy.to_string()), Ok(policy));
        assert!(policy.is_secure());
    }
    assert_eq!(SecurityPolicy::from_str("None"), Ok(SecurityPolicy::NoSecurity));
    assert_eq!(SecurityPolicy::from_str("Basic128Rsa15"), Ok(SecurityPolicy::Basic128Rsa15));
    assert_eq!(SecurityPolicy::from_str("basic256"), Ok(SecurityPolicy::Unknown));
    assert_eq!(SecurityPolicy::from_name("Basic256Sha256"), SecurityPolicy::Basic256Sha256);
    assert_eq!(SecurityPolicy::NoSecurity.to_string(), "None");
    assert_eq!(SecurityPolicy::Unknown.to_string(), "");
    assert!(!SecurityPolicy::NoSecurity.is_secure());
    assert!(!SecurityPolicy::Unknown.is_secure());
}

#[test]
fn policies_name_their_algorithms_and_sizes() {
    let p128 = SecurityPolicy::Basic128Rsa15;
    let p256 = SecurityPolicy::Basic256;
    let sha256 = SecurityPolicy::Basic256Sha256;
    assert_eq!(p128.symmetric_signature_algorithm(), "http://www.w3.org/2000/09/xmldsig#hmac-sha1");
    assert_eq!(
        sha256.symmetric_signature_algorithm(),
        "http://www.w3.org/2000/09/xmldsig#hmac-sha256"
    );
    assert_eq!(p256.asymmetric_signature_algorithm(), "http://www.w3.org/2000/09/xmldsig#rsa-sha1");
    assert_eq!(
        sha256.asymmetric_signature_algorithm(),
        "http://www.w3.org/2001/04/xmldsig#rsa-sha256"
    );
    assert_eq!(p128.symmetric_key_size(), 16);
    assert_eq!(p256.symmetric_key_size(), 32);
    assert_eq!(sha256.symmetric_key_size(), 32);
    for policy in SECURE {
        assert_eq!(policy.plain_block_size(), 16);
    }
    assert_eq!(SecurityPolicy::NoSecurity.symmetric_signature_size(), 0);
    assert_eq!(p128.symmetric_signature_size(), 20);
    assert_eq!(p256.symmetric_signature_size(), 20);
    assert_eq!(sha256.symmetric_signature_size(), 32);
    assert_eq!(p128.derived_signature_key_size(), 16);
    assert_eq!(p256.derived_signature_key_size(), 24);
    assert_eq!(sha256.derived_signature_key_size(), 32);
    assert_eq!(p128.min_asymmetric_key_length(), 1024);
    assert_eq!(p128.max_asymmetric_key_length(), 2048);
    assert_eq!(p256.min_asymmetric_key_length(), 1024);
    assert_eq!(p256.max_asymmetric_key_length(), 2048);
    assert_eq!(sha256.min_asymmetric_key_length(), 2048);
    assert_eq!(sha256.max_asymmetric_key_length(), 4096);
    assert_eq!(p128.padding_and_encrypted_data_size_for_key(256), (RsaPadding::Pkcs1, 245));
    assert_eq!(p256.padding_and_encrypted_data_size_for_key(256), (RsaPadding::OaepSha1, 214));
    assert_eq!(sha256.padding_and_encrypted_data_size_for_key(128), (RsaPadding::OaepSha1, 86));
}

#[test]
fn prf_is_the_expansion_p_sha() {
    let secret = [0x11u8; 32];
    let seed = [0x22u8; 32];
    let expected = p_sha(MessageDigest::sha256(), &secret, &seed, 100);
    let policy = SecurityPolicy::Basic256Sha256;
    assert_eq!(policy.prf(&secret, &seed, 100, 0).unwrap(), expected);
    assert_eq!(policy.prf(&secret, &seed, 16, 64).unwrap(), expected[64..80].to_vec());
    assert_eq!(policy.prf(&secret, &seed, 0, 5).unwrap(), Vec::<u8>::new());
    let expected = p_sha(MessageDigest::sha1(), &secret, &seed, 70);
    assert_eq!(SecurityPolicy::Basic256.prf(&secret, &seed, 30, 40).unwrap(), expected[40..70].to_vec());
    assert_eq!(SecurityPolicy::Basic128Rsa15.prf(&secret, &seed, 70, 0).unwrap(), expected);
    // The first block is the HMAC of A(1) and the seed, and A(1) is the
    // HMAC of the seed.
    let a1 = openssl_hmac(MessageDigest::sha256(), &secret, &seed);
    let mut input = a1.clone();
    input.extend_from_slice(&seed);
    assert_eq!(
        policy.prf(&secret, &seed, 32, 0).unwrap(),
        openssl_hmac(MessageDigest::sha256(), &secret, &input)
    );
    assert_eq!(SecurityPolicy::NoSecurity.prf(&secret, &seed, 4, 0), Err(BAD_SECURITY_POLICY_REJECTED));
    assert_eq!(SecurityPolicy::Unknown.prf(&secret, &seed, 4, 0), Err(BAD_SECURITY_POLICY_REJECTED));
    assert_eq!(policy.prf(&secret, &seed, usize::MAX, 1), Err(BAD_UNEXPECTED_ERROR));
}

#[test]
fn key_derivation() {
    let a: Vec<u8> = (0u8..32).collect();
    let b: Vec<u8> = (100u8..132).collect();
    let policy = SecurityPolicy::Basic256Sha256;
    let (signing_key, encrypting_key, iv) = policy.make_secure_channel_keys(&a, &b).unwrap();
    assert_eq!(signing_key.len(), 32);
    assert_eq!(encrypting_key.value.len(), 32);
    assert_eq!(encrypting_key.security_policy, policy);
    assert_eq!(iv.len(), 16);
    let material = p_sha(MessageDigest::sha256(), &a, &b, 80);
    assert_eq!(signing_key, material[0..32].to_vec());
    assert_eq!(encrypting_key.value, material[32..64].to_vec());
    assert_eq!(iv, material[64..80].to_vec());

    let (signing_key, encrypting_key, iv) =
        SecurityPolicy::Basic128Rsa15.make_secure_channel_keys(&a, &b).unwrap();
    let material = p_sha(MessageDigest::sha1(), &a, &b, 48);
    assert_eq!(signing_key, material[0..16].to_vec());
    assert_eq!(encrypting_key.value, material[16..32].to_vec());
    assert_eq!(iv, material[32..48].to_vec());

    let (signing_key, encrypting_key, iv) =
        SecurityPolicy::Basic256.make_secure_channel_keys(&a, &b).unwrap();
    let material = p_sha(MessageDigest::sha1(), &a, &b, 72);
    assert_eq!(signing_key, material[0..24].to_vec());
    assert_eq!(encrypting_key.value, material[24..56].to_vec());
    assert_eq!(iv, material[56..72].to_vec());

    assert_eq!(
        SecurityPolicy::NoSecurity.make_secure_channel_keys(&a, &b),
        Err(BAD_SECURITY_POLICY_REJECTED)
    );
    assert_eq!(
        SecurityPolicy::Unknown.make_secure_channel_keys(&a, &b),
        Err(BAD_SECURITY_POLICY_REJECTED)
    );
}

#[test]
fn both_ends_derive_the_same_keys() {
    let client_nonce = [7u8; 32];
    let server_nonce = [9u8; 32];
    for policy in SECURE {
        // The keys that the client sends with, as the client derives them
        // and as the server derives them.
        let at_client = policy.make_secure_channel_keys(&server_nonce, &client_nonce).unwrap();
        let at_server = policy.make_secure_channel_keys(&server_nonce, &client_nonce).unwrap();
        assert_eq!(at_client, at_server);
        // The other direction has other keys.
        let other = policy.make_secure_channel_keys(&client_nonce, &server_nonce).unwrap();
        assert!(other != at_client);
    }
}

#[test]
fn keys_are_cut_from_the_material() {
    let material: Vec<u8> = (0u8..100).collect();
    let (signing_key, encrypting_key, iv) =
        keys_from_material(SecurityPolicy::Basic256, &material).unwrap();
    assert_eq!(signing_key, (0u8..24).collect::<Vec<u8>>());
    assert_eq!(encrypting_key, AesKey::new(SecurityPolicy::Basic256, &material[24..56]));
    assert_eq!(iv, (56u8..72).collect::<Vec<u8>>());
    assert_eq!(
        keys_from_material(SecurityPolicy::Basic256, &material[..71]),
        Err(BAD_UNEXPECTED_ERROR)
    );
    assert!(keys_from_material(SecurityPolicy::Basic256, &material[..72]).is_ok());
    assert_eq!(
        keys_from_material(SecurityPolicy::NoSecurity, &material),
        Err(BAD_SECURITY_POLICY_REJECTED)
    );
}

#[test]
fn symmetric_signatures_are_hmacs() {
    let key = [0x0bu8; 20];
    let data = b"Hi There";
    let mut signature = [0u8; 20];
    assert_eq!(SecurityPolicy::Basic128Rsa15.symmetric_sign(&key, data, &mut signature), Ok(()));
    assert_eq!(signature.to_vec(), hex("b617318655057264e28bc0b6fb378c8ef146be00"));
    let mut signature = [0u8; 20];
    assert_eq!(SecurityPolicy::Basic256.symmetric_sign(&key, data, &mut signature), Ok(()));
    assert_eq!(signature.to_vec(), hex("b617318655057264e28bc0b6fb378c8ef146be00"));
    let mut signature = [0u8; 32];
    assert_eq!(SecurityPolicy::Basic256Sha256.symmetric_sign(&key, data, &mut signature), Ok(()));
    assert_eq!(
        signature.to_vec(),
        hex("b0344c61d8db38535ca8afceaf0bf12b881dc200c9833da726e9376c2e32cff7")
    );
    // A buffer of another length than the signature is left alone.
    let mut short = [5u8; 19];
    assert_eq!(
        SecurityPolicy::Basic256.symmetric_sign(&key, data, &mut short),
        Err(BAD_UNEXPECTED_ERROR)
    );
    assert_eq!(short, [5u8; 19]);
    let mut signature = [3u8; 20];
    assert_eq!(
        SecurityPolicy::NoSecurity.symmetric_sign(&key, data, &mut signature),
        Err(BAD_SECURITY_POLICY_REJECTED)
    );
    assert_eq!(signature, [3u8; 20]);
}

#[test]
fn symmetric_signature_verifies() {
    let key = [0x42u8; 32];
    let src = b"the signed region of a chunk";
    for policy in SECURE {
        let mut signature = vec![0u8; policy.symmetric_signature_size()];
        assert_eq!(policy.symmetric_sign(&key, src, &mut signature), Ok(()));
        assert_eq!(policy.symmetric_verify_signature(&key, src, &signature), Ok(true));
        let mut tampered = signature.clone();
        tampered[0] ^= 1;
        assert_eq!(
            policy.symmetric_verify_signature(&key, src, &tampered),
            Err(BAD_APPLICATION_SIGNATURE_INVALID)
        );
        assert_eq!(
            policy.symmetric_verify_signature(&key, b"other data", &signature),
            Err(BAD_APPLICATION_SIGNATURE_INVALID)
        );
        assert_eq!(
            policy.symmetric_verify_signature(&[0x43u8; 32], src, &signature),
            Err(BAD_APPLICATION_SIGNATURE_INVALID)
        );
        assert_eq!(
            policy.symmetric_verify_signature(&key, src, &signature[1..]),
            Err(BAD_APPLICATION_SIGNATURE_INVALID)
        );
    }
    assert_eq!(
        SecurityPolicy::Unknown.symmetric_verify_signature(&key, src, &[0u8; 20]),
        Err(BAD_SECURITY_POLICY_REJECTED)
    );
}

#[test]
fn signature_checks_on_given_results() {
    assert_eq!(check_signature(Some(vec![1, 2, 3]), &[1, 2, 3]), Ok(true));
    assert_eq!(check_signature(Some(vec![]), &[]), Ok(true));
    assert_eq!(check_signature(Some(vec![1, 2, 3]), &[1, 2, 4]), Err(BAD_APPLICATION_SIGNATURE_INVALID));
    assert_eq!(check_signature(Some(vec![1, 2, 3]), &[1, 2]), Err(BAD_APPLICATION_SIGNATURE_INVALID));
    assert_eq!(check_signature(None, &[1, 2]), Err(BAD_UNEXPECTED_ERROR));
    assert_eq!(check_verification(Some(true)), Ok(()));
    assert_eq!(check_verification(Some(false)), Err(BAD_SECURITY_CHECKS_FAILED));
    assert_eq!(check_verification(None), Err(BAD_UNEXPECTED_ERROR));
    let mut buffer = [9u8; 6];
    assert_eq!(store_result(Some(vec![1, 2]), &mut buffer, 3), Ok(5));
    assert_eq!(buffer, [9, 9, 9, 1, 2, 9]);
    assert_eq!(store_result(Some(vec![1, 2]), &mut buffer, 5), Err(BAD_UNEXPECTED_ERROR));
    assert_eq!(store_result(Some(vec![]), &mut buffer, 6), Ok(6));
    assert_eq!(store_result(Some(vec![]), &mut buffer, 7), Err(BAD_UNEXPECTED_ERROR));
    assert_eq!(store_result(None, &mut buffer, 0), Err(BAD_UNEXPECTED_ERROR));
    assert_eq!(buffer, [9, 9, 9, 1, 2, 9]);
    let mut signature = [0u8; 2];
    assert_eq!(store_signature(Some(vec![7, 8]), &mut signature), Ok(()));
    assert_eq!(signature, [7, 8]);
    assert_eq!(store_signature(Some(vec![7]), &mut signature), Err(BAD_UNEXPECTED_ERROR));
    assert_eq!(store_signature(None, &mut signature), Err(BAD_UNEXPECTED_ERROR));
    assert_eq!(signature, [7, 8]);
    copy_into(&mut buffer, 0, &[4, 4]);
    assert_eq!(buffer, [4, 4, 9, 1, 2, 9]);
}

#[test]
fn asymmetric_signature_verifies() {
    let (private, public) = key_pair(2048);
    let (_, other_public) = key_pair(2048);
    let data = b"an OpenSecureChannel request";
    for policy in SECURE {
        let mut signature = vec![0u8; 300];
        let n = policy.asymmetric_sign(&private, data, &mut signature).unwrap();
        assert_eq!(n, 256);
        assert_eq!(&signature[256..], &[0u8; 44][..]);
        assert_eq!(policy.asymmetric_verify_signature(&public, data, &signature[..n]), Ok(()));
        assert_eq!(
            policy.asymmetric_verify_signature(&public, b"other data", &signature[..n]),
            Err(BAD_SECURITY_CHECKS_FAILED)
        );
        assert_eq!(
            policy.asymmetric_verify_signature(&other_public, data, &signature[..n]),
            Err(BAD_SECURITY_CHECKS_FAILED)
        );
        signature[10] ^= 0x80;
        assert_eq!(
            policy.asymmetric_verify_signature(&public, data, &signature[..n]),
            Err(BAD_SECURITY_CHECKS_FAILED)
        );
        // A buffer without room for the signature is left alone.
        let mut small = vec![1u8; 255];
        assert_eq!(policy.asymmetric_sign(&private, data, &mut small), Err(BAD_UNEXPECTED_ERROR));
        assert_eq!(small, vec![1u8; 255]);
    }
    // The two digests give different signatures.
    let mut sha1 = vec![0u8; 256];
    let mut sha256 = vec![0u8; 256];
    SecurityPolicy::Basic256.asymmetric_sign(&private, data, &mut sha1).unwrap();
    SecurityPolicy::Basic256Sha256.asymmetric_sign(&private, data, &mut sha256).unwrap();
    assert!(sha1 != sha256);
    assert_eq!(
        SecurityPolicy::Basic256Sha256.asymmetric_verify_signature(&public, data, &sha1),
        Err(BAD_SECURITY_CHECKS_FAILED)
    );
    let mut signature = vec![0u8; 256];
    assert_eq!(
        SecurityPolicy::NoSecurity.asymmetric_sign(&private, data, &mut signature),
        Err(BAD_SECURITY_POLICY_REJECTED)
    );
    assert_eq!(
        SecurityPolicy::Unknown.asymmetric_verify_signature(&public, data, &signature),
        Err(BAD_SECURITY_POLICY_REJECTED)
    );
    // A key that cannot be read.
    let broken = PrivateKey { der: vec![1, 2, 3] };
    assert_eq!(
        SecurityPolicy::Basic256.asymmetric_sign(&broken, data, &mut signature),
        Err(BAD_UNEXPECTED_ERROR)
    );
    assert_eq!(private.size(), Some(256));
    assert_eq!(public.size(), Some(256));
    assert_eq!(broken.size(), None);
}

#[test]
fn asymmetric_encryption_comes_back() {
    let (private, public) = key_pair(2048);
    for policy in SECURE {
        let padding = if policy == SecurityPolicy::Basic128Rsa15 { 11 } else { 42 };
        let block = 256 - padding;
        for length in [0usize, 1, block - 1, block, block + 1, 2 * block, 2 * block + 17] {
            let src: Vec<u8> = (0..length).map(|i| (i % 251) as u8).collect();
            let blocks = (length + block - 1) / block;
            let mut encrypted = vec![0xEEu8; blocks * 256 + 5];
            let n = policy.asymmetric_encrypt(&public, &src, &mut encrypted).unwrap();
            assert_eq!(n, blocks * 256);
            assert_eq!(&encrypted[n..], &[0xEEu8; 5][..]);
            let mut decrypted = vec![0xDDu8; length + 3];
            let m = policy.asymmetric_decrypt(&private, &encrypted[..n], &mut decrypted).unwrap();
            assert_eq!(m, length);
            assert_eq!(&decrypted[..m], &src[..]);
            assert_eq!(&decrypted[m..], &[0xDDu8; 3][..]);
        }
    }
}

#[test]
fn asymmetric_encryption_fails_cleanly() {
    let (private, public) = key_pair(1024);
    let policy = SecurityPolicy::Basic256;
    let src = [1u8; 100];
    // No room for the ciphertext.
    let mut small = vec![0u8; 127];
    assert_eq!(policy.asymmetric_encrypt(&public, &src, &mut small), Err(BAD_UNEXPECTED_ERROR));
    // 100 bytes take two blocks under a key of 128 bytes with OAEP.
    let mut encrypted = vec![0u8; 256];
    assert_eq!(policy.asymmetric_encrypt(&public, &src, &mut encrypted), Ok(256));
    // Ciphertext that is no whole number of blocks.
    let mut decrypted = vec![0u8; 256];
    assert_eq!(
        policy.asymmetric_decrypt(&private, &encrypted[..200], &mut decrypted),
        Err(BAD_SECURITY_CHECKS_FAILED)
    );
    // Ciphertext that was tampered with.
    encrypted[5] ^= 1;
    assert_eq!(
        policy.asymmetric_decrypt(&private, &encrypted, &mut decrypted),
        Err(BAD_SECURITY_CHECKS_FAILED)
    );
    encrypted[5] ^= 1;
    // No room for the plaintext.
    let mut small = vec![0u8; 99];
    assert_eq!(
        policy.asymmetric_decrypt(&private, &encrypted, &mut small),
        Err(BAD_UNEXPECTED_ERROR)
    );
    assert_eq!(policy.asymmetric_decrypt(&private, &encrypted, &mut decrypted), Ok(100));
    assert_eq!(&decrypted[..100], &src[..]);
    assert_eq!(policy.asymmetric_decrypt(&private, &[], &mut decrypted), Ok(0));
    // Keys that cannot be read.
    let broken_public = PublicKey { der: vec![] };
    let broken_private = PrivateKey { der: vec![0x30] };
    assert_eq!(
        policy.asymmetric_encrypt(&broken_public, &src, &mut encrypted),
        Err(BAD_UNEXPECTED_ERROR)
    );
    assert_eq!(
        policy.asymmetric_decrypt(&broken_private, &encrypted, &mut decrypted),
        Err(BAD_SECURITY_CHECKS_FAILED)
    );
    for rejected in [SecurityPolicy::NoSecurity, SecurityPolicy::Unknown] {
        let mut untouched = vec![7u8; 256];
        assert_eq!(
            rejected.asymmetric_encrypt(&public, &src, &mut untouched),
            Err(BAD_SECURITY_POLICY_REJECTED)
        );
        assert_eq!(
            rejected.asymmetric_decrypt(&private, &encrypted, &mut untouched),
            Err(BAD_SECURITY_POLICY_REJECTED)
        );
        assert_eq!(untouched, vec![7u8; 256]);
    }
}

#[test]
fn symmetric_encryption_is_aes_cbc() {
    let key: Vec<u8> = (0u8..16).collect();
    let iv: Vec<u8> = (0u8..8).chain(0u8..8).collect();
    let data = b"Some Crypto Text";
    let expected = hex("b4b9e730d6d6f7de773f1cffb33e445a91d72762874dfb3c5ec459724af47ca1");
    let aes = AesKey::new(SecurityPolicy::Basic128Rsa15, &key);
    let policy = SecurityPolicy::Basic128Rsa15;
    let mut dst = vec![0u8; 40];
    assert_eq!(policy.symmetric_encrypt(&aes, &iv, data, &mut dst), Ok(32));
    assert_eq!(&dst[..32], &expected[..]);
    assert_eq!(&dst[32..], &[0u8; 8][..]);
    let mut plain = vec![0u8; 40];
    assert_eq!(policy.symmetric_decrypt(&aes, &iv, &dst[..32], &mut plain), Ok(16));
    assert_eq!(&plain[..16], &data[..]);
    assert_eq!(aes.encrypt(data, &iv, &mut dst), Ok(32));
    assert_eq!(aes.decrypt(&expected, &iv, &mut plain), Ok(16));
}

#[test]
fn symmetric_encryption_comes_back() {
    let iv = [3u8; 16];
    for policy in SECURE {
        let key = vec![0x5Au8; policy.symmetric_key_size()];
        let aes = AesKey::new(policy, &key);
        for length in [0usize, 1, 15, 16, 17, 100] {
            let src: Vec<u8> = (0..length).map(|i| i as u8).collect();
            let mut encrypted = vec![0u8; length + 16];
            let n = policy.symmetric_encrypt(&aes, &iv, &src, &mut encrypted).unwrap();
            assert_eq!(n, (length / 16 + 1) * 16);
            let mut decrypted = vec![0u8; n];
            let m = policy.symmetric_decrypt(&aes, &iv, &encrypted[..n], &mut decrypted).unwrap();
            assert_eq!(&decrypted[..m], &src[..]);
        }
        // Key and IV of a wrong size, and no room for the result.
        let src = [1u8; 16];
        let mut dst = vec![9u8; 64];
        let short = AesKey::new(policy, &key[1..]);
        assert_eq!(short.encrypt(&src, &iv, &mut dst), Err(BAD_UNEXPECTED_ERROR));
        assert_eq!(aes.encrypt(&src, &iv[1..], &mut dst), Err(BAD_UNEXPECTED_ERROR));
        assert_eq!(aes.decrypt(&src, &iv[1..], &mut dst), Err(BAD_UNEXPECTED_ERROR));
        assert_eq!(aes.encrypt(&src, &iv, &mut dst[..31]), Err(BAD_UNEXPECTED_ERROR));
        // Ciphertext that is no whole number of blocks.
        assert_eq!(aes.decrypt(&src[..15], &iv, &mut dst), Err(BAD_UNEXPECTED_ERROR));
        assert_eq!(dst, vec![9u8; 64]);
    }
    let unsecured = AesKey::new(SecurityPolicy::NoSecurity, &[0u8; 32]);
    let mut dst = vec![0u8; 64];
    assert_eq!(unsecured.encrypt(&[1], &iv, &mut dst), Err(BAD_SECURITY_POLICY_REJECTED));
    assert_eq!(
        SecurityPolicy::Basic256.symmetric_decrypt(&unsecured, &iv, &[0u8; 16], &mut dst),
        Err(BAD_SECURITY_POLICY_REJECTED)
    );
}

#[test]
fn plaintext_is_cut_into_blocks() {
    let src: Vec<u8> = (0u8..10).collect();
    assert_eq!(plain_block_at(&src, 4, 0), &[0u8, 1, 2, 3][..]);
    assert_eq!(plain_block_at(&src, 4, 1), &[4u8, 5, 6, 7][..]);
    // The last block is what is left.
    assert_eq!(plain_block_at(&src, 4, 2), &[8u8, 9][..]);
    assert_eq!(plain_block_at(&src, 5, 1), &[5u8, 6, 7, 8, 9][..]);
    assert_eq!(plain_block_at(&src, 10, 0), &src[..]);
    assert_eq!(plain_block_at(&src, 11, 0), &src[..]);
    assert_eq!(plain_block_at(&src, 1, 9), &[9u8][..]);
}

#[test]
fn a_block_of_ciphertext_has_the_size_of_the_key() {
    assert_eq!(cipher_block(Some(vec![1, 2, 3]), 3), Ok(vec![1, 2, 3]));
    assert_eq!(cipher_block(Some(vec![1, 2, 3]), 4), Err(BAD_UNEXPECTED_ERROR));
    assert_eq!(cipher_block(Some(vec![1, 2, 3]), 2), Err(BAD_UNEXPECTED_ERROR));
    assert_eq!(cipher_block(Some(vec![]), 0), Ok(vec![]));
    assert_eq!(cipher_block(None, 3), Err(BAD_UNEXPECTED_ERROR));
}

#[test]
fn only_rsa_keys_sign_and_verify() {
    let group = EcGroup::from_curve_name(Nid::X9_62_PRIME256V1).unwrap();
    let ec = EcKey::generate(&group).unwrap();
    let private = PrivateKey { der: ec.private_key_to_der().unwrap() };
    let public = PublicKey { der: ec.public_key_to_der().unwrap() };
    let data = b"signed";
    for policy in SECURE {
        let mut signature = vec![0u8; 256];
        assert_eq!(policy.asymmetric_sign(&private, data, &mut signature), Err(BAD_UNEXPECTED_ERROR));
        assert_eq!(signature, vec![0u8; 256]);
        assert_eq!(
            policy.asymmetric_verify_signature(&public, data, &signature),
            Err(BAD_UNEXPECTED_ERROR)
        );
    }
    assert_eq!(private.size(), None);
    assert_eq!(public.size(), None);
}

#[test]
fn rsa_signatures_depend_on_key_and_data_alone() {
    let (private, _) = key_pair(2048);
    for policy in SECURE {
        let mut first = vec![0u8; 256];
        let mut second = vec![0u8; 256];
        assert_eq!(policy.asymmetric_sign(&private, b"data", &mut first), Ok(256));
        assert_eq!(policy.asymmetric_sign(&private, b"data", &mut second), Ok(256));
        assert_eq!(first, second);
    }
}
