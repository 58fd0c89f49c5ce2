use openssl::aes::{unwrap_key, wrap_key, AesKey};
use openssl::hash::MessageDigest;
use openssl::pkey::PKey;
use openssl::sign::Signer;
use openssl::symm::{decrypt, decrypt_aead, encrypt, encrypt_aead, Cipher};
use vstd::prelude::*;

verus! {

/// The longest input, in bytes, that is handed to a primitive.
pub const MAX_INPUT_LEN: usize = 0x7fff_ffef;

/// The three key sizes of AES.
#[derive(Clone, Copy, Debug, PartialEq, Eq, Structural)]
pub enum AesKeySize {
    Bits128,
    Bits192,
    Bits256,
}

impl AesKeySize {
    /// The key's length in bytes.
    pub open spec fn spec_len(self) -> nat {
        match self {
            AesKeySize::Bits128 => 16,
            AesKeySize::Bits192 => 24,
            AesKeySize::Bits256 => 32,
        }
    }

    /// The key's length in bytes.
    pub fn len(self) -> (r: usize)
        ensures
            r == self.spec_len(),
    {
        match self {
            AesKeySize::Bits128 => 16,
            AesKeySize::Bits192 => 24,
            AesKeySize::Bits256 => 32,
        }
    }
}

/// The hash functions of the SHA-2 family that the algorithms use.
#[derive(Clone, Copy, Debug, PartialEq, Eq, Structural)]
pub enum HashAlg {
    Sha256,
    Sha384,
    Sha512,
}

impl HashAlg {
    /// The digest's length in bits.
    pub open spec fn bits(self) -> nat {
        match self {
            HashAlg::Sha256 => 256,
            HashAlg::Sha384 => 384,
            HashAlg::Sha512 => 512,
        }
    }

    /// The digest's length in bytes.
    pub open spec fn spec_output_len(self) -> nat {
        self.bits() / 8
    }
}

/// The ciphertext and tag of AES-GCM, or `None` where the cipher refuses.
pub uninterp spec fn aes_gcm_sealed(key: Seq<u8>, iv: Seq<u8>, aad: Seq<u8>, data: Seq<u8>) -> Option<
    (Seq<u8>, Seq<u8>),
>;

/// The plaintext that AES-GCM gives for a ciphertext and its tag, or `None`
/// where the tag does not verify.
pub uninterp spec fn aes_gcm_opened(
    key: Seq<u8>,
    iv: Seq<u8>,
    aad: Seq<u8>,
    ciphertext: Seq<u8>,
    tag: Seq<u8>,
) -> Option<Seq<u8>>;

/// The ciphertext of AES-CBC with PKCS#7 padding.
pub uninterp spec fn aes_cbc_sealed(key: Seq<u8>, iv: Seq<u8>, data: Seq<u8>) -> Option<Seq<u8>>;

/// The plaintext of AES-CBC with PKCS#7 padding, or `None` where the
/// ciphertext or its padding is malformed.
pub uninterp spec fn aes_cbc_opened(key: Seq<u8>, iv: Seq<u8>, ciphertext: Seq<u8>) -> Option<
    Seq<u8>,
>;

/// The HMAC of `data` under `key` with the SHA-2 function of `bits` bits.
pub uninterp spec fn hmac_code(bits: nat, key: Seq<u8>, data: Seq<u8>) -> Option<Seq<u8>>;

/// The AES key wrap of `key` under `kek`.
pub uninterp spec fn aes_kw_wrapped(kek: Seq<u8>, key: Seq<u8>) -> Option<Seq<u8>>;

/// The key that AES key unwrap recovers, or `None` where the integrity check
/// fails.
pub uninterp spec fn aes_kw_unwrapped(kek: Seq<u8>, wrapped: Seq<u8>) -> Option<Seq<u8>>;

/// The key that PBKDF2 derives with HMAC and the SHA-2 function of `bits`
/// bits.
pub uninterp spec fn pbkdf2_key(
    bits: nat,
    password: Seq<u8>,
    salt: Seq<u8>,
    iterations: nat,
    len: nat,
) -> Option<Seq<u8>>;

/// The SHA-256 digest of `data`.
pub uninterp spec fn sha256_digest(data: Seq<u8>) -> Seq<u8>;

/// The length of the AES-CBC ciphertext of `n` bytes under PKCS#7 padding.
pub open spec fn cbc_len(n: nat) -> nat {
    (n / 16 + 1) * 16
}

/// Calls `openssl::rand::rand_bytes` on a fresh buffer of `len` bytes. Of the
/// bytes only their number is known.
#[verifier::external_body]
pub(crate) fn random_bytes(len: usize) -> (r: Option<Vec<u8>>)
    requires
        len <= MAX_INPUT_LEN,
    ensures
        r matches Some(b) ==> b@.len() == len,
{
    let mut buf = vec![0u8; len];
    openssl::rand::rand_bytes(&mut buf).ok()?;
    Some(buf)
}

/// Calls `openssl::memcmp::eq`, which compares two byte strings of one length
/// in time that does not depend on where they differ.
#[verifier::external_body]
pub(crate) fn constant_time_eq(a: &[u8], b: &[u8]) -> (r: bool)
    requires
        a@.len() == b@.len(),
    ensures
        r == (a@ == b@),
{
    openssl::memcmp::eq(a, b)
}

/// Calls `openssl::symm::encrypt_aead` with the AES-GCM cipher of the key's
/// size and a tag buffer of 16 bytes. The contract names the outcome and
/// states what GCM gives: a ciphertext as long as the data, and that opening
/// it under the same key, IV and associated data gives the data back.
#[verifier::external_body]
pub(crate) fn aes_gcm_seal(size: AesKeySize, key: &[u8], iv: &[u8], aad: &[u8], data: &[u8]) -> (r:
    Option<(Vec<u8>, Vec<u8>)>)
    requires
        key@.len() == size.spec_len(),
        iv@.len() == 12,
        aad@.len() <= MAX_INPUT_LEN,
        data@.len() <= MAX_INPUT_LEN,
    ensures
        match r {
            Some((c, t)) => aes_gcm_sealed(key@, iv@, aad@, data@) == Some((c@, t@)),
            None => aes_gcm_sealed(key@, iv@, aad@, data@) is None,
        },
        r matches Some((c, t)) ==> c@.len() == data@.len() && t@.len() == 16 && aes_gcm_opened(
            key@,
            iv@,
            aad@,
            c@,
            t@,
        ) == Some(data@),
{
    let cipher = match size {
        AesKeySize::Bits128 => Cipher::aes_128_gcm(),
        AesKeySize::Bits192 => Cipher::aes_192_gcm(),
        AesKeySize::Bits256 => Cipher::aes_256_gcm(),
    };
    let mut tag = vec![0u8; 16];
    let ciphertext = encrypt_aead(cipher, key, Some(iv), aad, data, &mut tag).ok()?;
    Some((ciphertext, tag))
}

/// Calls `openssl::symm::decrypt_aead` with the AES-GCM cipher of the key's
/// size. The contract names the outcome; a plaintext is as long as the
/// ciphertext.
#[verifier::external_body]
pub(crate) fn aes_gcm_open(
    size: AesKeySize,
    key: &[u8],
    iv: &[u8],
    aad: &[u8],
    ciphertext: &[u8],
    tag: &[u8],
) -> (r: Option<Vec<u8>>)
    requires
        key@.len() == size.spec_len(),
        iv@.len() == 12,
        tag@.len() == 16,
        aad@.len() <= MAX_INPUT_LEN,
        ciphertext@.len() <= MAX_INPUT_LEN,
    ensures
        match r {
            Some(p) => aes_gcm_opened(key@, iv@, aad@, ciphertext@, tag@) == Some(p@),
            None => aes_gcm_opened(key@, iv@, aad@, ciphertext@, tag@) is None,
        },
        r matches Some(p) ==> p@.len() == ciphertext@.len(),
{
    let cipher = match size {
        AesKeySize::Bits128 => Cipher::aes_128_gcm(),
        AesKeySize::Bits192 => Cipher::aes_192_gcm(),
        AesKeySize::Bits256 => Cipher::aes_256_gcm(),
    };
    decrypt_aead(cipher, key, Some(iv), aad, ciphertext, tag).ok()
}

/// Calls `openssl::symm::encrypt` with the AES-CBC cipher of the key's size;
/// padding is on. The contract names the outcome and states what CBC with
/// PKCS#7 gives: whole blocks, at least one byte of padding, and that
/// decrypting under the same key and IV gives the data back.
#[verifier::external_body]
pub(crate) fn aes_cbc_seal(size: AesKeySize, key: &[u8], iv: &[u8], data: &[u8]) -> (r: Option<
    Vec<u8>,
>)
    requires
        key@.len() == size.spec_len(),
        iv@.len() == 16,
        data@.len() <= MAX_INPUT_LEN,
    ensures
        match r {
            Some(c) => aes_cbc_sealed(key@, iv@, data@) == Some(c@),
            None => aes_cbc_sealed(key@, iv@, data@) is None,
        },
        r matches Some(c) ==> c@.len() == cbc_len(data@.len()) && aes_cbc_opened(key@, iv@, c@)
            == Some(data@),
{
    let cipher = match size {
        AesKeySize::Bits128 => Cipher::aes_128_cbc(),
        AesKeySize::Bits192 => Cipher::aes_192_cbc(),
        AesKeySize::Bits256 => Cipher::aes_256_cbc(),
    };
    encrypt(cipher, key, Some(iv), data).ok()
}

/// Calls `openssl::symm::decrypt` with the AES-CBC cipher of the key's size.
/// The contract names the outcome; a plaintext is shorter than its
/// ciphertext.
#[verifier::external_body]
pub(crate) fn aes_cbc_open(size: AesKeySize, key: &[u8], iv: &[u8], ciphertext: &[u8]) -> (r:
    Option<Vec<u8>>)
    requires
        key@.len() == size.spec_len(),
        iv@.len() == 16,
        ciphertext@.len() <= MAX_INPUT_LEN,
    ensures
        match r {
            Some(p) => aes_cbc_opened(key@, iv@, ciphertext@) == Some(p@),
            None => aes_cbc_opened(key@, iv@, ciphertext@) is None,
        },
        r matches Some(p) ==> p@.len() < ciphertext@.len(),
{
    let cipher = match size {
        AesKeySize::Bits128 => Cipher::aes_128_cbc(),
        AesKeySize::Bits192 => Cipher::aes_192_cbc(),
        AesKeySize::Bits256 => Cipher::aes_256_cbc(),
    };
    decrypt(cipher, key, Some(iv), ciphertext).ok()
}

/// Computes an HMAC with `openssl::sign::Signer` over a key made by
/// `PKey::hmac`. The contract names the code; it is as long as the digest.
#[verifier::external_body]
pub(crate) fn hmac(hash: HashAlg, key: &[u8], data: &[u8]) -> (r: Option<Vec<u8>>)
    requires
        key@.len() <= MAX_INPUT_LEN,
    ensures
        match r {
            Some(c) => hmac_code(hash.bits(), key@, data@) == Some(c@),
            None => hmac_code(hash.bits(), key@, data@) is None,
        },
        r matches Some(c) ==> c@.len() == hash.spec_output_len(),
{
    let digest = match hash {
        HashAlg::Sha256 => MessageDigest::sha256(),
        HashAlg::Sha384 => MessageDigest::sha384(),
        HashAlg::Sha512 => MessageDigest::sha512(),
    };
    let pkey = PKey::hmac(key).ok()?;
    let mut signer = Signer::new(digest, &pkey).ok()?;
    signer.update(data).ok()?;
    signer.sign_to_vec().ok()
}

/// Calls `openssl::aes::wrap_key` with the default initial value. The
/// contract names the outcome and states what the key wrap gives: eight
/// bytes more than the key, and that unwrapping under the same key gives the
/// key back.
#[verifier::external_body]
pub(crate) fn aes_kw_wrap(kek: &[u8], key: &[u8]) -> (r: Option<Vec<u8>>)
    requires
        kek@.len() == 16 || kek@.len() == 24 || kek@.len() == 32,
        16 <= key@.len() <= 1024,
        key@.len() % 8 == 0,
    ensures
        match r {
            Some(w) => aes_kw_wrapped(kek@, key@) == Some(w@),
            None => aes_kw_wrapped(kek@, key@) is None,
        },
        r matches Some(w) ==> w@.len() == key@.len() + 8 && aes_kw_unwrapped(kek@, w@) == Some(
            key@,
        ),
{
    let aes = AesKey::new_encrypt(kek).ok()?;
    let mut out = vec![0u8; key.len() + 8];
    let written = wrap_key(&aes, None, &mut out, key).ok()?;
    out.truncate(written);
    Some(out)
}

/// Calls `openssl::aes::unwrap_key` with the default initial value. The
/// contract names the outcome; a recovered key is eight bytes shorter than
/// what wrapped it.
#[verifier::external_body]
pub(crate) fn aes_kw_unwrap(kek: &[u8], wrapped: &[u8]) -> (r: Option<Vec<u8>>)
    requires
        kek@.len() == 16 || kek@.len() == 24 || kek@.len() == 32,
        24 <= wrapped@.len() <= 1032,
        wrapped@.len() % 8 == 0,
    ensures
        match r {
            Some(k) => aes_kw_unwrapped(kek@, wrapped@) == Some(k@),
            None => aes_kw_unwrapped(kek@, wrapped@) is None,
        },
        r matches Some(k) ==> k@.len() + 8 == wrapped@.len(),
{
    let aes = AesKey::new_decrypt(kek).ok()?;
    let mut out = vec![0u8; wrapped.len()];
    let written = unwrap_key(&aes, None, &mut out, wrapped).ok()?;
    out.truncate(written);
    Some(out)
}

/// Calls `openssl::pkcs5::pbkdf2_hmac` on a fresh buffer of `len` bytes. The
/// contract names the key; it has the length asked for.
#[verifier::external_body]
pub(crate) fn pbkdf2(hash: HashAlg, password: &[u8], salt: &[u8], iterations: usize, len: usize) -> (r:
    Option<Vec<u8>>)
    requires
        password@.len() <= MAX_INPUT_LEN,
        salt@.len() <= MAX_INPUT_LEN,
        1 <= iterations <= MAX_INPUT_LEN,
        1 <= len <= 64,
    ensures
        match r {
            Some(k) => pbkdf2_key(hash.bits(), password@, salt@, iterations as nat, len as nat)
                == Some(k@),
            None => pbkdf2_key(hash.bits(), password@, salt@, iterations as nat, len as nat)
                is None,
        },
        r matches Some(k) ==> k@.len() == len,
{
    let digest = match hash {
        HashAlg::Sha256 => MessageDigest::sha256(),
        HashAlg::Sha384 => MessageDigest::sha384(),
        HashAlg::Sha512 => MessageDigest::sha512(),
    };
    let mut key = vec![0u8; len];
    openssl::pkcs5::pbkdf2_hmac(password, salt, iterations, digest, &mut key).ok()?;
    Some(key)
}

/// Calls `openssl::sha::sha256`. The contract names the digest, which has 32
/// bytes.
#[verifier::external_body]
pub(crate) fn sha256(data: &[u8]) -> (r: Vec<u8>)
    ensures
        r@ == sha256_digest(data@),
        r@.len() == 32,
{
    openssl::sha::sha256(data).to_vec()
}

} // verus!
