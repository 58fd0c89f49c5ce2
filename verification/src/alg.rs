use crate::agreement::{
    agree, agreed_key, agrees_back, ephemeral_public, epk_of, epk_peer, full_point,
    lemma_epk_read, party_info, peer_key, point_reads_back,
};
use crate::base64url::{base64url_bytes, base64url_chars, decode_text, encode_text};
use crate::compact::append;
use crate::content::JweContentEncryption;
use crate::crypto::{
    aes_gcm_open, aes_gcm_opened, aes_gcm_seal, aes_gcm_sealed, aes_kw_unwrap, aes_kw_unwrapped,
    aes_kw_wrap, aes_kw_wrapped, pbkdf2, pbkdf2_key, random_bytes, AesKeySize, HashAlg,
    MAX_INPUT_LEN,
};
use crate::error::JoseError;
use crate::header::{
    claim_fits, claims_ok, is_text_claim, is_text_list_claim, with_claim, Claims, JweHeader,
};
use crate::json::{bytes_view, lookup, lookup_text, Json, JsonValue};
use crate::message::{choose_encryption, chosen_encryption};
use crate::pk::{
    ec_ephemeral, ec_public_encoded, ecdh_secret, public_der, public_of, rsa_oaep_opened, rsa_open_oaep, rsa_open_pkcs1, rsa_pkcs1_opened, rsa_seal_oaep,
    rsa_seal_pkcs1, OaepHash,
};
use vstd::prelude::*;
use vstd::utf8::encode_utf8;

verus! {

/// The key is the content-encryption key.
#[derive(Clone, Copy, Debug, PartialEq, Eq, Structural)]
pub enum DirectJweAlgorithm {
    Dir,
}

/// AES key wrap under a shared key.
#[derive(Clone, Copy, Debug, PartialEq, Eq, Structural)]
pub enum AeskwJweAlgorithm {
    A128kw,
    A192kw,
    A256kw,
}

/// Key wrapping with AES-GCM under a shared key.
#[derive(Clone, Copy, Debug, PartialEq, Eq, Structural)]
pub enum AesgcmkwJweAlgorithm {
    A128gcmkw,
    A192gcmkw,
    A256gcmkw,
}

/// AES key wrap under a key derived from a password with PBKDF2.
#[derive(Clone, Copy, Debug, PartialEq, Eq, Structural)]
pub enum Pbes2HmacAeskwJweAlgorithm {
    Pbes2Hs256A128kw,
    Pbes2Hs384A192kw,
    Pbes2Hs512A256kw,
}

/// RSA encryption of the key under the recipient's public key.
#[allow(non_camel_case_types)]
#[derive(Clone, Copy, Debug, PartialEq, Eq, Structural)]
pub enum RsaesJweAlgorithm {
    Rsa1_5,
    RsaOaep,
    RsaOaep256,
    RsaOaep384,
    RsaOaep512,
}

/// Key agreement on an elliptic curve with a fresh key for each message: the
/// agreed key is the content-encryption key, or wraps it.
#[derive(Clone, Copy, Debug, PartialEq, Eq, Structural)]
pub enum EcdhEsJweAlgorithm {
    EcdhEs,
    EcdhEsA128kw,
    EcdhEsA192kw,
    EcdhEsA256kw,
}

/// A key-management algorithm.
#[derive(Clone, Copy, Debug, PartialEq, Eq, Structural)]
pub enum JweAlgorithm {
    Direct(DirectJweAlgorithm),
    Aeskw(AeskwJweAlgorithm),
    Aesgcmkw(AesgcmkwJweAlgorithm),
    Pbes2HmacAeskw(Pbes2HmacAeskwJweAlgorithm),
    Rsaes(RsaesJweAlgorithm),
    EcdhEs(EcdhEsJweAlgorithm),
}

/// The fewest bytes of salt that a password-based algorithm takes.
pub const MIN_SALT_LEN: usize = 8;

/// The fewest rounds that a password-based encrypter is set to.
pub const MIN_ITERATIONS: usize = 1000;

/// The longest key, in bytes, that is wrapped.
pub const MAX_KEY_LEN: usize = 1024;

impl JweAlgorithm {
    /// The algorithm's name on the wire.
    pub open spec fn spec_name(self) -> Seq<char> {
        match self {
            JweAlgorithm::Direct(_) => "dir"@,
            JweAlgorithm::Aeskw(AeskwJweAlgorithm::A128kw) => "A128KW"@,
            JweAlgorithm::Aeskw(AeskwJweAlgorithm::A192kw) => "A192KW"@,
            JweAlgorithm::Aeskw(AeskwJweAlgorithm::A256kw) => "A256KW"@,
            JweAlgorithm::Aesgcmkw(AesgcmkwJweAlgorithm::A128gcmkw) => "A128GCMKW"@,
            JweAlgorithm::Aesgcmkw(AesgcmkwJweAlgorithm::A192gcmkw) => "A192GCMKW"@,
            JweAlgorithm::Aesgcmkw(AesgcmkwJweAlgorithm::A256gcmkw) => "A256GCMKW"@,
            JweAlgorithm::Pbes2HmacAeskw(
                Pbes2HmacAeskwJweAlgorithm::Pbes2Hs256A128kw,
            ) => "PBES2-HS256+A128KW"@,
            JweAlgorithm::Pbes2HmacAeskw(
                Pbes2HmacAeskwJweAlgorithm::Pbes2Hs384A192kw,
            ) => "PBES2-HS384+A192KW"@,
            JweAlgorithm::Pbes2HmacAeskw(
                Pbes2HmacAeskwJweAlgorithm::Pbes2Hs512A256kw,
            ) => "PBES2-HS512+A256KW"@,
            JweAlgorithm::Rsaes(RsaesJweAlgorithm::Rsa1_5) => "RSA1_5"@,
            JweAlgorithm::Rsaes(RsaesJweAlgorithm::RsaOaep) => "RSA-OAEP"@,
            JweAlgorithm::Rsaes(RsaesJweAlgorithm::RsaOaep256) => "RSA-OAEP-256"@,
            JweAlgorithm::Rsaes(RsaesJweAlgorithm::RsaOaep384) => "RSA-OAEP-384"@,
            JweAlgorithm::Rsaes(RsaesJweAlgorithm::RsaOaep512) => "RSA-OAEP-512"@,
            JweAlgorithm::EcdhEs(EcdhEsJweAlgorithm::EcdhEs) => "ECDH-ES"@,
            JweAlgorithm::EcdhEs(EcdhEsJweAlgorithm::EcdhEsA128kw) => "ECDH-ES+A128KW"@,
            JweAlgorithm::EcdhEs(EcdhEsJweAlgorithm::EcdhEsA192kw) => "ECDH-ES+A192KW"@,
            JweAlgorithm::EcdhEs(EcdhEsJweAlgorithm::EcdhEsA256kw) => "ECDH-ES+A256KW"@,
        }
    }

    /// The size of the AES key that wraps.
    pub open spec fn spec_size(self) -> AesKeySize {
        match self {
            JweAlgorithm::Direct(_) => AesKeySize::Bits128,
            JweAlgorithm::Aeskw(AeskwJweAlgorithm::A128kw) => AesKeySize::Bits128,
            JweAlgorithm::Aeskw(AeskwJweAlgorithm::A192kw) => AesKeySize::Bits192,
            JweAlgorithm::Aeskw(AeskwJweAlgorithm::A256kw) => AesKeySize::Bits256,
            JweAlgorithm::Aesgcmkw(AesgcmkwJweAlgorithm::A128gcmkw) => AesKeySize::Bits128,
            JweAlgorithm::Aesgcmkw(AesgcmkwJweAlgorithm::A192gcmkw) => AesKeySize::Bits192,
            JweAlgorithm::Aesgcmkw(AesgcmkwJweAlgorithm::A256gcmkw) => AesKeySize::Bits256,
            JweAlgorithm::Pbes2HmacAeskw(
                Pbes2HmacAeskwJweAlgorithm::Pbes2Hs256A128kw,
            ) => AesKeySize::Bits128,
            JweAlgorithm::Pbes2HmacAeskw(
                Pbes2HmacAeskwJweAlgorithm::Pbes2Hs384A192kw,
            ) => AesKeySize::Bits192,
            JweAlgorithm::Pbes2HmacAeskw(
                Pbes2HmacAeskwJweAlgorithm::Pbes2Hs512A256kw,
            ) => AesKeySize::Bits256,
            JweAlgorithm::Rsaes(_) => AesKeySize::Bits128,
            JweAlgorithm::EcdhEs(EcdhEsJweAlgorithm::EcdhEs) => AesKeySize::Bits128,
            JweAlgorithm::EcdhEs(EcdhEsJweAlgorithm::EcdhEsA128kw) => AesKeySize::Bits128,
            JweAlgorithm::EcdhEs(EcdhEsJweAlgorithm::EcdhEsA192kw) => AesKeySize::Bits192,
            JweAlgorithm::EcdhEs(EcdhEsJweAlgorithm::EcdhEsA256kw) => AesKeySize::Bits256,
        }
    }

    /// The hash function of a password-based algorithm.
    pub open spec fn spec_hash(self) -> HashAlg {
        match self.spec_size() {
            AesKeySize::Bits128 => HashAlg::Sha256,
            AesKeySize::Bits192 => HashAlg::Sha384,
            AesKeySize::Bits256 => HashAlg::Sha512,
        }
    }

    /// The hash function of OAEP, where the algorithm is RSA with OAEP.
    pub open spec fn spec_oaep(self) -> Option<OaepHash> {
        match self {
            JweAlgorithm::Rsaes(RsaesJweAlgorithm::RsaOaep) => Some(OaepHash::Sha1),
            JweAlgorithm::Rsaes(RsaesJweAlgorithm::RsaOaep256) => Some(OaepHash::Sha256),
            JweAlgorithm::Rsaes(RsaesJweAlgorithm::RsaOaep384) => Some(OaepHash::Sha384),
            JweAlgorithm::Rsaes(RsaesJweAlgorithm::RsaOaep512) => Some(OaepHash::Sha512),
            _ => None,
        }
    }

    /// Whether both sides hold the same key.
    pub open spec fn shared_key(self) -> bool {
        !(self is Rsaes) && !(self is EcdhEs)
    }

    /// Whether the key that is agreed on is the content-encryption key.
    pub open spec fn agrees_directly(self) -> bool {
        self == JweAlgorithm::EcdhEs(EcdhEsJweAlgorithm::EcdhEs)
    }

    /// Whether the content-encryption key is derived and not sent.
    pub open spec fn spec_derives_key(self) -> bool {
        self is Direct || self.agrees_directly()
    }

    /// Whether the key has a length that the algorithm takes: any for the
    /// direct use; at least one byte of a password, or of a public or
    /// private key in DER; else the size of the wrapping key.
    pub open spec fn takes_key(self, key: Seq<u8>) -> bool {
        match self {
            JweAlgorithm::Direct(_) => true,
            JweAlgorithm::Pbes2HmacAeskw(_) => 1 <= key.len() <= MAX_INPUT_LEN,
            JweAlgorithm::Rsaes(_) => 1 <= key.len() <= MAX_INPUT_LEN,
            JweAlgorithm::EcdhEs(_) => 1 <= key.len() <= MAX_INPUT_LEN,
            _ => key.len() == self.spec_size().spec_len(),
        }
    }

    /// The algorithm's name on the wire.
    pub fn name(self) -> (r: &'static str)
        ensures
            r@ == self.spec_name(),
    {
        match self {
            JweAlgorithm::Direct(_) => "dir",
            JweAlgorithm::Aeskw(AeskwJweAlgorithm::A128kw) => "A128KW",
            JweAlgorithm::Aeskw(AeskwJweAlgorithm::A192kw) => "A192KW",
            JweAlgorithm::Aeskw(AeskwJweAlgorithm::A256kw) => "A256KW",
            JweAlgorithm::Aesgcmkw(AesgcmkwJweAlgorithm::A128gcmkw) => "A128GCMKW",
            JweAlgorithm::Aesgcmkw(AesgcmkwJweAlgorithm::A192gcmkw) => "A192GCMKW",
            JweAlgorithm::Aesgcmkw(AesgcmkwJweAlgorithm::A256gcmkw) => "A256GCMKW",
            JweAlgorithm::Pbes2HmacAeskw(
                Pbes2HmacAeskwJweAlgorithm::Pbes2Hs256A128kw,
            ) => "PBES2-HS256+A128KW",
            JweAlgorithm::Pbes2HmacAeskw(
                Pbes2HmacAeskwJweAlgorithm::Pbes2Hs384A192kw,
            ) => "PBES2-HS384+A192KW",
            JweAlgorithm::Pbes2HmacAeskw(
                Pbes2HmacAeskwJweAlgorithm::Pbes2Hs512A256kw,
            ) => "PBES2-HS512+A256KW",
            JweAlgorithm::Rsaes(RsaesJweAlgorithm::Rsa1_5) => "RSA1_5",
            JweAlgorithm::Rsaes(RsaesJweAlgorithm::RsaOaep) => "RSA-OAEP",
            JweAlgorithm::Rsaes(RsaesJweAlgorithm::RsaOaep256) => "RSA-OAEP-256",
            JweAlgorithm::Rsaes(RsaesJweAlgorithm::RsaOaep384) => "RSA-OAEP-384",
            JweAlgorithm::Rsaes(RsaesJweAlgorithm::RsaOaep512) => "RSA-OAEP-512",
            JweAlgorithm::EcdhEs(EcdhEsJweAlgorithm::EcdhEs) => "ECDH-ES",
            JweAlgorithm::EcdhEs(EcdhEsJweAlgorithm::EcdhEsA128kw) => "ECDH-ES+A128KW",
            JweAlgorithm::EcdhEs(EcdhEsJweAlgorithm::EcdhEsA192kw) => "ECDH-ES+A192KW",
            JweAlgorithm::EcdhEs(EcdhEsJweAlgorithm::EcdhEsA256kw) => "ECDH-ES+A256KW",
        }
    }

    /// The hash function of OAEP, where the algorithm is RSA with OAEP.
    pub fn oaep(self) -> (r: Option<OaepHash>)
        ensures
            r == self.spec_oaep(),
    {
        match self {
            JweAlgorithm::Rsaes(RsaesJweAlgorithm::RsaOaep) => Some(OaepHash::Sha1),
            JweAlgorithm::Rsaes(RsaesJweAlgorithm::RsaOaep256) => Some(OaepHash::Sha256),
            JweAlgorithm::Rsaes(RsaesJweAlgorithm::RsaOaep384) => Some(OaepHash::Sha384),
            JweAlgorithm::Rsaes(RsaesJweAlgorithm::RsaOaep512) => Some(OaepHash::Sha512),
            _ => None,
        }
    }

    /// Whether the content-encryption key is derived and not sent. Such an
    /// algorithm serves one recipient only.
    pub fn derives_key(self) -> (r: bool)
        ensures
            r == self.spec_derives_key(),
    {
        match self {
            JweAlgorithm::Direct(_) => true,
            JweAlgorithm::EcdhEs(EcdhEsJweAlgorithm::EcdhEs) => true,
            _ => false,
        }
    }

    /// The size of the AES key that wraps.
    pub fn size(self) -> (r: AesKeySize)
        ensures
            r == self.spec_size(),
    {
        match self {
            JweAlgorithm::Direct(_) => AesKeySize::Bits128,
            JweAlgorithm::Aeskw(AeskwJweAlgorithm::A128kw) => AesKeySize::Bits128,
            JweAlgorithm::Aeskw(AeskwJweAlgorithm::A192kw) => AesKeySize::Bits192,
            JweAlgorithm::Aeskw(AeskwJweAlgorithm::A256kw) => AesKeySize::Bits256,
            JweAlgorithm::Aesgcmkw(AesgcmkwJweAlgorithm::A128gcmkw) => AesKeySize::Bits128,
            JweAlgorithm::Aesgcmkw(AesgcmkwJweAlgorithm::A192gcmkw) => AesKeySize::Bits192,
            JweAlgorithm::Aesgcmkw(AesgcmkwJweAlgorithm::A256gcmkw) => AesKeySize::Bits256,
            JweAlgorithm::Pbes2HmacAeskw(
                Pbes2HmacAeskwJweAlgorithm::Pbes2Hs256A128kw,
            ) => AesKeySize::Bits128,
            JweAlgorithm::Pbes2HmacAeskw(
                Pbes2HmacAeskwJweAlgorithm::Pbes2Hs384A192kw,
            ) => AesKeySize::Bits192,
            JweAlgorithm::Pbes2HmacAeskw(
                Pbes2HmacAeskwJweAlgorithm::Pbes2Hs512A256kw,
            ) => AesKeySize::Bits256,
            JweAlgorithm::Rsaes(_) => AesKeySize::Bits128,
            JweAlgorithm::EcdhEs(EcdhEsJweAlgorithm::EcdhEs) => AesKeySize::Bits128,
            JweAlgorithm::EcdhEs(EcdhEsJweAlgorithm::EcdhEsA128kw) => AesKeySize::Bits128,
            JweAlgorithm::EcdhEs(EcdhEsJweAlgorithm::EcdhEsA192kw) => AesKeySize::Bits192,
            JweAlgorithm::EcdhEs(EcdhEsJweAlgorithm::EcdhEsA256kw) => AesKeySize::Bits256,
        }
    }

    /// The hash function of a password-based algorithm.
    pub fn hash(self) -> (r: HashAlg)
        ensures
            r == self.spec_hash(),
    {
        match self.size() {
            AesKeySize::Bits128 => HashAlg::Sha256,
            AesKeySize::Bits192 => HashAlg::Sha384,
            AesKeySize::Bits256 => HashAlg::Sha512,
        }
    }

    /// Whether the key has a length that the algorithm takes.
    pub fn check_key(self, key: &[u8]) -> (r: bool)
        ensures
            r == self.takes_key(key@),
    {
        match self {
            JweAlgorithm::Direct(_) => true,
            JweAlgorithm::Pbes2HmacAeskw(_) => 1 <= key.len() && key.len() <= MAX_INPUT_LEN,
            JweAlgorithm::Rsaes(_) => 1 <= key.len() && key.len() <= MAX_INPUT_LEN,
            JweAlgorithm::EcdhEs(_) => 1 <= key.len() && key.len() <= MAX_INPUT_LEN,
            _ => key.len() == self.size().len(),
        }
    }

    /// An encrypter for this algorithm under `key`. Fails where the key's
    /// length is not one the algorithm takes.
    pub fn encrypter_from_bytes(self, key: &[u8]) -> (r: Result<JweEncrypter, JoseError>)
        ensures
            match r {
                Ok(e) => self.takes_key(key@) && e@ == (Keyed {
                    algorithm: self,
                    key: key@,
                    key_id: None,
                    salt_len: MIN_SALT_LEN as nat,
                    iterations: MIN_ITERATIONS as nat,
                }),
                Err(e) => !self.takes_key(key@) && e == JoseError::KeyMismatch,
            },
    {
        if !self.check_key(key) {
            return Err(JoseError::KeyMismatch);
        }
        Ok(
            JweEncrypter {
                algorithm: self,
                key: vstd::slice::slice_to_vec(key),
                key_id: None,
                salt_len: MIN_SALT_LEN,
                iterations: MIN_ITERATIONS,
            },
        )
    }

    /// A decrypter for this algorithm under `key`. Fails where the key's
    /// length is not one the algorithm takes.
    pub fn decrypter_from_bytes(self, key: &[u8]) -> (r: Result<JweDecrypter, JoseError>)
        ensures
            match r {
                Ok(d) => self.takes_key(key@) && d@ == (Keyed {
                    algorithm: self,
                    key: key@,
                    key_id: None,
                    salt_len: 0,
                    iterations: 0,
                }),
                Err(e) => !self.takes_key(key@) && e == JoseError::KeyMismatch,
            },
    {
        if !self.check_key(key) {
            return Err(JoseError::KeyMismatch);
        }
        Ok(JweDecrypter { algorithm: self, key: vstd::slice::slice_to_vec(key), key_id: None })
    }
}

impl DirectJweAlgorithm {
    /// The algorithm among all key-management algorithms.
    pub open spec fn spec_algorithm(self) -> JweAlgorithm {
        JweAlgorithm::Direct(self)
    }

    /// The algorithm among all key-management algorithms.
    pub fn algorithm(self) -> (r: JweAlgorithm)
        ensures
            r == self.spec_algorithm(),
    {
        JweAlgorithm::Direct(self)
    }

    /// The algorithm's name on the wire.
    pub fn name(self) -> (r: &'static str)
        ensures
            r@ == self.spec_algorithm().spec_name(),
    {
        self.algorithm().name()
    }

    /// An encrypter for this algorithm under `key`. Fails where the key's
    /// length is not one the algorithm takes.
    pub fn encrypter_from_bytes(self, key: &[u8]) -> (r: Result<JweEncrypter, JoseError>)
        ensures
            match r {
                Ok(e) => self.spec_algorithm().takes_key(key@) && e@ == (Keyed {
                    algorithm: self.spec_algorithm(),
                    key: key@,
                    key_id: None,
                    salt_len: MIN_SALT_LEN as nat,
                    iterations: MIN_ITERATIONS as nat,
                }),
                Err(e) => !self.spec_algorithm().takes_key(key@) && e == JoseError::KeyMismatch,
            },
    {
        self.algorithm().encrypter_from_bytes(key)
    }

    /// A decrypter for this algorithm under `key`. Fails where the key's
    /// length is not one the algorithm takes.
    pub fn decrypter_from_bytes(self, key: &[u8]) -> (r: Result<JweDecrypter, JoseError>)
        ensures
            match r {
                Ok(d) => self.spec_algorithm().takes_key(key@) && d@ == (Keyed {
                    algorithm: self.spec_algorithm(),
                    key: key@,
                    key_id: None,
                    salt_len: 0,
                    iterations: 0,
                }),
                Err(e) => !self.spec_algorithm().takes_key(key@) && e == JoseError::KeyMismatch,
            },
    {
        self.algorithm().decrypter_from_bytes(key)
    }
}

impl RsaesJweAlgorithm {
    /// The algorithm among all key-management algorithms.
    pub open spec fn spec_algorithm(self) -> JweAlgorithm {
        JweAlgorithm::Rsaes(self)
    }

    /// The algorithm among all key-management algorithms.
    pub fn algorithm(self) -> (r: JweAlgorithm)
        ensures
            r == self.spec_algorithm(),
    {
        JweAlgorithm::Rsaes(self)
    }

    /// The algorithm's name on the wire.
    pub fn name(self) -> (r: &'static str)
        ensures
            r@ == self.spec_algorithm().spec_name(),
    {
        self.algorithm().name()
    }

    /// An encrypter for this algorithm under `key`. Fails where the key's
    /// length is not one the algorithm takes.
    pub fn encrypter_from_bytes(self, key: &[u8]) -> (r: Result<JweEncrypter, JoseError>)
        ensures
            match r {
                Ok(e) => self.spec_algorithm().takes_key(key@) && e@ == (Keyed {
                    algorithm: self.spec_algorithm(),
                    key: key@,
                    key_id: None,
                    salt_len: MIN_SALT_LEN as nat,
                    iterations: MIN_ITERATIONS as nat,
                }),
                Err(e) => !self.spec_algorithm().takes_key(key@) && e == JoseError::KeyMismatch,
            },
    {
        self.algorithm().encrypter_from_bytes(key)
    }

    /// A decrypter for this algorithm under `key`. Fails where the key's
    /// length is not one the algorithm takes.
    pub fn decrypter_from_bytes(self, key: &[u8]) -> (r: Result<JweDecrypter, JoseError>)
        ensures
            match r {
                Ok(d) => self.spec_algorithm().takes_key(key@) && d@ == (Keyed {
                    algorithm: self.spec_algorithm(),
                    key: key@,
                    key_id: None,
                    salt_len: 0,
                    iterations: 0,
                }),
                Err(e) => !self.spec_algorithm().takes_key(key@) && e == JoseError::KeyMismatch,
            },
    {
        self.algorithm().decrypter_from_bytes(key)
    }

    /// An encrypter for this algorithm under the recipient's public key,
    /// given in DER.
    pub fn encrypter_from_der(self, key: &[u8]) -> (r: Result<JweEncrypter, JoseError>)
        ensures
            match r {
                Ok(e) => self.spec_algorithm().takes_key(key@) && e@ == (Keyed {
                    algorithm: self.spec_algorithm(),
                    key: key@,
                    key_id: None,
                    salt_len: MIN_SALT_LEN as nat,
                    iterations: MIN_ITERATIONS as nat,
                }),
                Err(e) => !self.spec_algorithm().takes_key(key@) && e == JoseError::KeyMismatch,
            },
    {
        self.algorithm().encrypter_from_bytes(key)
    }

    /// A decrypter for this algorithm under the recipient's private key,
    /// given in DER.
    pub fn decrypter_from_der(self, key: &[u8]) -> (r: Result<JweDecrypter, JoseError>)
        ensures
            match r {
                Ok(d) => self.spec_algorithm().takes_key(key@) && d@ == (Keyed {
                    algorithm: self.spec_algorithm(),
                    key: key@,
                    key_id: None,
                    salt_len: 0,
                    iterations: 0,
                }),
                Err(e) => !self.spec_algorithm().takes_key(key@) && e == JoseError::KeyMismatch,
            },
    {
        self.algorithm().decrypter_from_bytes(key)
    }
}

impl EcdhEsJweAlgorithm {
    /// The algorithm among all key-management algorithms.
    pub open spec fn spec_algorithm(self) -> JweAlgorithm {
        JweAlgorithm::EcdhEs(self)
    }

    /// The algorithm among all key-management algorithms.
    pub fn algorithm(self) -> (r: JweAlgorithm)
        ensures
            r == self.spec_algorithm(),
    {
        JweAlgorithm::EcdhEs(self)
    }

    /// The algorithm's name on the wire.
    pub fn name(self) -> (r: &'static str)
        ensures
            r@ == self.spec_algorithm().spec_name(),
    {
        self.algorithm().name()
    }

    /// An encrypter for this algorithm under `key`. Fails where the key's
    /// length is not one the algorithm takes.
    pub fn encrypter_from_bytes(self, key: &[u8]) -> (r: Result<JweEncrypter, JoseError>)
        ensures
            match r {
                Ok(e) => self.spec_algorithm().takes_key(key@) && e@ == (Keyed {
                    algorithm: self.spec_algorithm(),
                    key: key@,
                    key_id: None,
                    salt_len: MIN_SALT_LEN as nat,
                    iterations: MIN_ITERATIONS as nat,
                }),
                Err(e) => !self.spec_algorithm().takes_key(key@) && e == JoseError::KeyMismatch,
            },
    {
        self.algorithm().encrypter_from_bytes(key)
    }

    /// A decrypter for this algorithm under `key`. Fails where the key's
    /// length is not one the algorithm takes.
    pub fn decrypter_from_bytes(self, key: &[u8]) -> (r: Result<JweDecrypter, JoseError>)
        ensures
            match r {
                Ok(d) => self.spec_algorithm().takes_key(key@) && d@ == (Keyed {
                    algorithm: self.spec_algorithm(),
                    key: key@,
                    key_id: None,
                    salt_len: 0,
                    iterations: 0,
                }),
                Err(e) => !self.spec_algorithm().takes_key(key@) && e == JoseError::KeyMismatch,
            },
    {
        self.algorithm().decrypter_from_bytes(key)
    }

    /// An encrypter for this algorithm under the recipient's public key,
    /// given in DER.
    pub fn encrypter_from_der(self, key: &[u8]) -> (r: Result<JweEncrypter, JoseError>)
        ensures
            match r {
                Ok(e) => self.spec_algorithm().takes_key(key@) && e@ == (Keyed {
                    algorithm: self.spec_algorithm(),
                    key: key@,
                    key_id: None,
                    salt_len: MIN_SALT_LEN as nat,
                    iterations: MIN_ITERATIONS as nat,
                }),
                Err(e) => !self.spec_algorithm().takes_key(key@) && e == JoseError::KeyMismatch,
            },
    {
        self.algorithm().encrypter_from_bytes(key)
    }

    /// A decrypter for this algorithm under the recipient's private key,
    /// given in DER.
    pub fn decrypter_from_der(self, key: &[u8]) -> (r: Result<JweDecrypter, JoseError>)
        ensures
            match r {
                Ok(d) => self.spec_algorithm().takes_key(key@) && d@ == (Keyed {
                    algorithm: self.spec_algorithm(),
                    key: key@,
                    key_id: None,
                    salt_len: 0,
                    iterations: 0,
                }),
                Err(e) => !self.spec_algorithm().takes_key(key@) && e == JoseError::KeyMismatch,
            },
    {
        self.algorithm().decrypter_from_bytes(key)
    }
}

impl AeskwJweAlgorithm {
    /// The algorithm among all key-management algorithms.
    pub open spec fn spec_algorithm(self) -> JweAlgorithm {
        JweAlgorithm::Aeskw(self)
    }

    /// The algorithm among all key-management algorithms.
    pub fn algorithm(self) -> (r: JweAlgorithm)
        ensures
            r == self.spec_algorithm(),
    {
        JweAlgorithm::Aeskw(self)
    }

    /// The algorithm's name on the wire.
    pub fn name(self) -> (r: &'static str)
        ensures
            r@ == self.spec_algorithm().spec_name(),
    {
        self.algorithm().name()
    }

    /// An encrypter for this algorithm under `key`. Fails where the key's
    /// length is not one the algorithm takes.
    pub fn encrypter_from_bytes(self, key: &[u8]) -> (r: Result<JweEncrypter, JoseError>)
        ensures
            match r {
                Ok(e) => self.spec_algorithm().takes_key(key@) && e@ == (Keyed {
                    algorithm: self.spec_algorithm(),
                    key: key@,
                    key_id: None,
                    salt_len: MIN_SALT_LEN as nat,
                    iterations: MIN_ITERATIONS as nat,
                }),
                Err(e) => !self.spec_algorithm().takes_key(key@) && e == JoseError::KeyMismatch,
            },
    {
        self.algorithm().encrypter_from_bytes(key)
    }

    /// A decrypter for this algorithm under `key`. Fails where the key's
    /// length is not one the algorithm takes.
    pub fn decrypter_from_bytes(self, key: &[u8]) -> (r: Result<JweDecrypter, JoseError>)
        ensures
            match r {
                Ok(d) => self.spec_algorithm().takes_key(key@) && d@ == (Keyed {
                    algorithm: self.spec_algorithm(),
                    key: key@,
                    key_id: None,
                    salt_len: 0,
                    iterations: 0,
                }),
                Err(e) => !self.spec_algorithm().takes_key(key@) && e == JoseError::KeyMismatch,
            },
    {
        self.algorithm().decrypter_from_bytes(key)
    }
}

impl AesgcmkwJweAlgorithm {
    /// The algorithm among all key-management algorithms.
    pub open spec fn spec_algorithm(self) -> JweAlgorithm {
        JweAlgorithm::Aesgcmkw(self)
    }

    /// The algorithm among all key-management algorithms.
    pub fn algorithm(self) -> (r: JweAlgorithm)
        ensures
            r == self.spec_algorithm(),
    {
        JweAlgorithm::Aesgcmkw(self)
    }

    /// The algorithm's name on the wire.
    pub fn name(self) -> (r: &'static str)
        ensures
            r@ == self.spec_algorithm().spec_name(),
    {
        self.algorithm().name()
    }

    /// An encrypter for this algorithm under `key`. Fails where the key's
    /// length is not one the algorithm takes.
    pub fn encrypter_from_bytes(self, key: &[u8]) -> (r: Result<JweEncrypter, JoseError>)
        ensures
            match r {
                Ok(e) => self.spec_algorithm().takes_key(key@) && e@ == (Keyed {
                    algorithm: self.spec_algorithm(),
                    key: key@,
                    key_id: None,
                    salt_len: MIN_SALT_LEN as nat,
                    iterations: MIN_ITERATIONS as nat,
                }),
                Err(e) => !self.spec_algorithm().takes_key(key@) && e == JoseError::KeyMismatch,
            },
    {
        self.algorithm().encrypter_from_bytes(key)
    }

    /// A decrypter for this algorithm under `key`. Fails where the key's
    /// length is not one the algorithm takes.
    pub fn decrypter_from_bytes(self, key: &[u8]) -> (r: Result<JweDecrypter, JoseError>)
        ensures
            match r {
                Ok(d) => self.spec_algorithm().takes_key(key@) && d@ == (Keyed {
                    algorithm: self.spec_algorithm(),
                    key: key@,
                    key_id: None,
                    salt_len: 0,
                    iterations: 0,
                }),
                Err(e) => !self.spec_algorithm().takes_key(key@) && e == JoseError::KeyMismatch,
            },
    {
        self.algorithm().decrypter_from_bytes(key)
    }
}

impl Pbes2HmacAeskwJweAlgorithm {
    /// The algorithm among all key-management algorithms.
    pub open spec fn spec_algorithm(self) -> JweAlgorithm {
        JweAlgorithm::Pbes2HmacAeskw(self)
    }

    /// The algorithm among all key-management algorithms.
    pub fn algorithm(self) -> (r: JweAlgorithm)
        ensures
            r == self.spec_algorithm(),
    {
        JweAlgorithm::Pbes2HmacAeskw(self)
    }

    /// The algorithm's name on the wire.
    pub fn name(self) -> (r: &'static str)
        ensures
            r@ == self.spec_algorithm().spec_name(),
    {
        self.algorithm().name()
    }

    /// An encrypter for this algorithm under `key`. Fails where the key's
    /// length is not one the algorithm takes.
    pub fn encrypter_from_bytes(self, key: &[u8]) -> (r: Result<JweEncrypter, JoseError>)
        ensures
            match r {
                Ok(e) => self.spec_algorithm().takes_key(key@) && e@ == (Keyed {
                    algorithm: self.spec_algorithm(),
                    key: key@,
                    key_id: None,
                    salt_len: MIN_SALT_LEN as nat,
                    iterations: MIN_ITERATIONS as nat,
                }),
                Err(e) => !self.spec_algorithm().takes_key(key@) && e == JoseError::KeyMismatch,
            },
    {
        self.algorithm().encrypter_from_bytes(key)
    }

    /// A decrypter for this algorithm under `key`. Fails where the key's
    /// length is not one the algorithm takes.
    pub fn decrypter_from_bytes(self, key: &[u8]) -> (r: Result<JweDecrypter, JoseError>)
        ensures
            match r {
                Ok(d) => self.spec_algorithm().takes_key(key@) && d@ == (Keyed {
                    algorithm: self.spec_algorithm(),
                    key: key@,
                    key_id: None,
                    salt_len: 0,
                    iterations: 0,
                }),
                Err(e) => !self.spec_algorithm().takes_key(key@) && e == JoseError::KeyMismatch,
            },
    {
        self.algorithm().decrypter_from_bytes(key)
    }
}

/// What an encrypter or a decrypter holds, as mathematics sees it.
pub struct Keyed {
    pub algorithm: JweAlgorithm,
    pub key: Seq<u8>,
    pub key_id: Option<Seq<char>>,
    pub salt_len: nat,
    pub iterations: nat,
}

/// An algorithm bound to key material, for encrypting.
#[derive(Debug)]
pub struct JweEncrypter {
    algorithm: JweAlgorithm,
    key: Vec<u8>,
    key_id: Option<String>,
    salt_len: usize,
    iterations: usize,
}

/// An algorithm bound to key material, for decrypting.
#[derive(Debug)]
pub struct JweDecrypter {
    algorithm: JweAlgorithm,
    key: Vec<u8>,
    key_id: Option<String>,
}

/// The view of an optional string.
pub open spec fn text_view(t: Option<String>) -> Option<Seq<char>> {
    match t {
        Some(s) => Some(s@),
        None => None,
    }
}

impl View for JweEncrypter {
    type V = Keyed;

    closed spec fn view(&self) -> Keyed {
        Keyed {
            algorithm: self.algorithm,
            key: self.key@,
            key_id: text_view(self.key_id),
            salt_len: self.salt_len as nat,
            iterations: self.iterations as nat,
        }
    }
}

impl View for JweDecrypter {
    type V = Keyed;

    closed spec fn view(&self) -> Keyed {
        Keyed {
            algorithm: self.algorithm,
            key: self.key@,
            key_id: text_view(self.key_id),
            salt_len: 0,
            iterations: 0,
        }
    }
}

/// The salt of the key derivation: the algorithm's name, a zero byte, and
/// the salt input.
pub open spec fn pbes2_salt(algorithm: JweAlgorithm, input: Seq<u8>) -> Seq<u8> {
    encode_utf8(algorithm.spec_name()) + seq![0u8] + input
}

/// A key that the AES key wrap takes: whole blocks of eight bytes, at least
/// two.
pub open spec fn wrappable(key: Seq<u8>) -> bool {
    16 <= key.len() <= MAX_KEY_LEN && key.len() % 8 == 0
}

/// A wrapped key that the AES key unwrap takes.
pub open spec fn unwrappable(wrapped: Seq<u8>) -> bool {
    24 <= wrapped.len() <= MAX_KEY_LEN + 8 && wrapped.len() % 8 == 0
}

/// The bytes that the claim `name` holds as base64url text.
pub open spec fn claim_bytes(claims: Claims, name: Seq<char>) -> Option<Seq<u8>> {
    match lookup_text(claims, name) {
        Some(t) => base64url_bytes(encode_utf8(t)),
        None => None,
    }
}

/// The rounds that the claim `p2c` asks for: a whole number that the key
/// derivation takes.
pub open spec fn claim_rounds(claims: Claims) -> Option<nat> {
    match lookup(claims, "p2c"@) {
        Some(Json::Integer(n)) => if 1 <= n <= MAX_INPUT_LEN {
            Some(n as nat)
        } else {
            None
        },
        _ => None,
    }
}

/// The encrypted key and the header that wrapping `cek` gives, where the
/// header that is written is the one that is asked.
pub open spec fn key_wrapped(holder: Keyed, cek: Seq<u8>, nonce: Seq<u8>, claims: Claims) -> Result<
    (Option<Seq<u8>>, Claims),
    JoseError,
> {
    key_wrapped_for(holder, cek, nonce, claims, claims)
}

/// The encrypted key and the header that wrapping `cek` gives, with `nonce`
/// for the random bytes: nothing for the direct use; the AES key wrap; the
/// AES-GCM ciphertext, with IV and tag as claims; the AES key wrap under the
/// key derived from the password, with salt and rounds as claims; for RSA
/// what was drawn; for a key agreement the fresh public key as a claim, and
/// the AES key wrap under the key agreed on. What the header says of the two
/// parties of an agreement is asked of `asked`, the claims that hold for the
/// recipient; the parameters are written into `claims`.
pub open spec fn key_wrapped_for(
    holder: Keyed,
    cek: Seq<u8>,
    nonce: Seq<u8>,
    asked: Claims,
    claims: Claims,
) -> Result<(Option<Seq<u8>>, Claims), JoseError> {
    let key = holder.key;
    match holder.algorithm {
        JweAlgorithm::Direct(_) => Ok((None, claims)),
        JweAlgorithm::Aeskw(_) => if !holder.algorithm.takes_key(key) || !wrappable(cek) {
            Err(JoseError::KeyMismatch)
        } else {
            match aes_kw_wrapped(key, cek) {
                Some(w) => Ok((Some(w), claims)),
                None => Err(JoseError::KeyMismatch),
            }
        },
        JweAlgorithm::Aesgcmkw(_) => if !holder.algorithm.takes_key(key) || nonce.len() != 12
            || cek.len() < 1 || cek.len() > MAX_KEY_LEN {
            Err(JoseError::KeyMismatch)
        } else {
            match aes_gcm_sealed(key, nonce, Seq::empty(), cek) {
                Some((c, t)) => Ok(
                    (
                        Some(c),
                        with_claim(
                            with_claim(claims, "iv"@, Json::String(base64url_chars(nonce))),
                            "tag"@,
                            Json::String(base64url_chars(t)),
                        ),
                    ),
                ),
                None => Err(JoseError::KeyMismatch),
            }
        },
        JweAlgorithm::Pbes2HmacAeskw(_) => if !holder.algorithm.takes_key(key) || !wrappable(cek)
            || nonce.len() < MIN_SALT_LEN || nonce.len() > MAX_KEY_LEN || holder.iterations
            < MIN_ITERATIONS || holder.iterations > MAX_INPUT_LEN || pbes2_salt(
            holder.algorithm,
            nonce,
        ).len() > MAX_INPUT_LEN {
            Err(JoseError::KeyMismatch)
        } else {
            match pbkdf2_key(
                holder.algorithm.spec_hash().bits(),
                key,
                pbes2_salt(holder.algorithm, nonce),
                holder.iterations,
                holder.algorithm.spec_size().spec_len(),
            ) {
                Some(derived) => match aes_kw_wrapped(derived, cek) {
                    Some(w) => Ok(
                        (
                            Some(w),
                            with_claim(
                                with_claim(claims, "p2s"@, Json::String(base64url_chars(nonce))),
                                "p2c"@,
                                Json::Integer(holder.iterations as int),
                            ),
                        ),
                    ),
                    None => Err(JoseError::KeyMismatch),
                },
                None => Err(JoseError::KeyMismatch),
            }
        },
        JweAlgorithm::Rsaes(_) => if !holder.algorithm.takes_key(key) || nonce.len() == 0 {
            Err(JoseError::KeyMismatch)
        } else {
            Ok((Some(nonce), claims))
        },
        JweAlgorithm::EcdhEs(_) => if !holder.algorithm.takes_key(key) {
            Err(JoseError::KeyMismatch)
        } else {
            match epk_of(nonce) {
                None => Err(JoseError::KeyMismatch),
                Some(epk) => if holder.algorithm.agrees_directly() {
                    Ok((None, with_claim(claims, "epk"@, epk)))
                } else if !wrappable(cek) {
                    Err(JoseError::KeyMismatch)
                } else {
                    match agreed_key(
                        nonce,
                        key,
                        encode_utf8(holder.algorithm.spec_name()),
                        asked,
                        holder.algorithm.spec_size().spec_len(),
                    ) {
                        Some(kek) => match aes_kw_wrapped(kek, cek) {
                            Some(w) => Ok((Some(w), with_claim(claims, "epk"@, epk))),
                            None => Err(JoseError::KeyMismatch),
                        },
                        None => Err(JoseError::KeyMismatch),
                    }
                },
            }
        },
    }
}

/// The decrypter holds the key that goes with the encrypter's, for the same
/// algorithm: the same key where both sides hold one; for RSA and for a key
/// agreement a private key to which the encrypter's public key belongs.
pub open spec fn pairs(decrypter: Keyed, encrypter: Keyed) -> bool {
    &&& decrypter.algorithm == encrypter.algorithm
    &&& match encrypter.algorithm {
        JweAlgorithm::Rsaes(_) | JweAlgorithm::EcdhEs(_) => decrypter.algorithm.takes_key(
            decrypter.key,
        ) && public_of(decrypter.key) == Some(encrypter.key),
        _ => decrypter.key == encrypter.key,
    }
}

/// What was drawn serves the holder of the private key. For RSA it is an
/// encryption of `seed`: every private key to which the encrypter's public
/// key belongs recovers `seed` from it. For a key agreement it is a fresh
/// key with which every such private key agrees both ways.
pub open spec fn sealed_for(holder: Keyed, seed: Seq<u8>, nonce: Seq<u8>) -> bool {
    match holder.algorithm {
        JweAlgorithm::Rsaes(_) => forall|private_der: Seq<u8>|
            #[trigger] public_of(private_der) == Some(holder.key) ==> rsa_recovered(
                holder.algorithm,
                private_der,
                nonce,
            ) == Some(seed),
        JweAlgorithm::EcdhEs(_) => agrees_back(nonce, holder.key),
        _ => true,
    }
}

/// What holds of the bytes drawn for wrapping `seed`: twelve bytes of IV for
/// AES-GCM; the salt for a password; for RSA an encryption of `seed` under
/// the encrypter's key; for a key agreement a fresh key that agrees both
/// ways; nothing for the direct use and the plain key wrap.
pub open spec fn drawn(holder: Keyed, seed: Seq<u8>, nonce: Seq<u8>) -> bool {
    match holder.algorithm {
        JweAlgorithm::Aesgcmkw(_) => nonce.len() == 12,
        JweAlgorithm::Pbes2HmacAeskw(_) => nonce.len() == holder.salt_len,
        JweAlgorithm::Rsaes(_) | JweAlgorithm::EcdhEs(_) => sealed_for(holder, seed, nonce),
        _ => nonce.len() == 0,
    }
}

/// The key of the content is the one that the algorithm derives, where it
/// derives one: the encrypter's key for the direct use, the key agreed on
/// for the direct agreement.
pub open spec fn derived_as(holder: Keyed, cek: Seq<u8>, nonce: Seq<u8>, asked: Claims) -> bool {
    match holder.algorithm {
        JweAlgorithm::Direct(_) => cek == holder.key,
        JweAlgorithm::EcdhEs(EcdhEsJweAlgorithm::EcdhEs) => chosen_encryption(asked) matches Ok(
            enc,
        ) && agreed_key(
            nonce,
            holder.key,
            encode_utf8(enc.spec_name()),
            asked,
            enc.spec_key_len(),
        ) == Some(cek),
        _ => true,
    }
}

/// The claims of a received header say of wrapping what the sender's did,
/// as far as the algorithm reads them: its parameters as `wrapped` has them,
/// and for a key agreement the content encryption and the two parties as
/// `asked` has them.
pub open spec fn reads_alike(
    algorithm: JweAlgorithm,
    whole: Claims,
    asked: Claims,
    wrapped: Claims,
) -> bool {
    match algorithm {
        JweAlgorithm::Aesgcmkw(_) => lookup(whole, "iv"@) == lookup(wrapped, "iv"@) && lookup(
            whole,
            "tag"@,
        ) == lookup(wrapped, "tag"@),
        JweAlgorithm::Pbes2HmacAeskw(_) => lookup(whole, "p2s"@) == lookup(wrapped, "p2s"@)
            && lookup(whole, "p2c"@) == lookup(wrapped, "p2c"@),
        JweAlgorithm::EcdhEs(_) => lookup(whole, "epk"@) == lookup(wrapped, "epk"@) && lookup(
            whole,
            "enc"@,
        ) == lookup(asked, "enc"@) && lookup(whole, "apu"@) == lookup(asked, "apu"@) && lookup(
            whole,
            "apv"@,
        ) == lookup(asked, "apv"@),
        _ => true,
    }
}

/// Every decrypter that pairs with the encrypter recovers the key from every
/// header that says of wrapping what the sender's did.
pub open spec fn recovered_by_pairs(
    holder: Keyed,
    encrypted_key: Option<Seq<u8>>,
    asked: Claims,
    wrapped: Claims,
    cek: Seq<u8>,
) -> bool {
    forall|decrypter: Keyed, whole: Claims|
        #![trigger pairs(decrypter, holder), reads_alike(holder.algorithm, whole, asked, wrapped)]
        pairs(decrypter, holder) && reads_alike(holder.algorithm, whole, asked, wrapped) ==> key_unwrapped(
            decrypter,
            encrypted_key,
            whole,
        ) == Ok::<Seq<u8>, JoseError>(cek)
}

/// What wrapping under an agreed key leaves to be undone: the coordinates of
/// the fresh key's point are read back from the header's text, and the key
/// wrap, where there is one, is undone under the key agreed on.
pub open spec fn agreement_wrapped(
    holder: Keyed,
    cek: Seq<u8>,
    nonce: Seq<u8>,
    asked: Claims,
    encrypted_key: Option<Seq<u8>>,
) -> bool {
    holder.algorithm is EcdhEs ==> point_reads_back(nonce) && (holder.algorithm.agrees_directly()
        || match (
        encrypted_key,
        agreed_key(
            nonce,
            holder.key,
            encode_utf8(holder.algorithm.spec_name()),
            asked,
            holder.algorithm.spec_size().spec_len(),
        ),
    ) {
        (Some(w), Some(kek)) => unwrappable(w) && aes_kw_unwrapped(kek, w) == Some(cek),
        _ => false,
    })
}

/// The holder of a private key recovers what was wrapped under a key agreed
/// on with the public key that belongs to it.
#[verifier::spinoff_prover]
#[verifier::rlimit(60)]
pub proof fn lemma_agreement_recovers(
    holder: Keyed,
    decrypter: Keyed,
    cek: Seq<u8>,
    nonce: Seq<u8>,
    asked: Claims,
    before: Claims,
    encrypted_key: Option<Seq<u8>>,
    after: Claims,
    whole: Claims,
)
    requires
        holder.algorithm is EcdhEs,
        claims_ok(before),
        key_wrapped_for(holder, cek, nonce, asked, before) == Ok::<
            (Option<Seq<u8>>, Claims),
            JoseError,
        >((encrypted_key, after)),
        sealed_for(holder, cek, nonce),
        agreement_wrapped(holder, cek, nonce, asked, encrypted_key),
        derived_as(holder, cek, nonce, asked),
        pairs(decrypter, holder),
        reads_alike(holder.algorithm, whole, asked, after),
    ensures
        key_unwrapped(decrypter, encrypted_key, whole) == Ok::<Seq<u8>, JoseError>(cek),
{
    lemma_parameter_names();
    let (curve, x, y) = full_point(nonce)->0;
    let epk = epk_of(nonce)->0;
    assert(full_point(nonce) is Some);
    crate::header::lemma_with_claim(before, "epk"@, epk);
    assert(lookup(whole, "epk"@) == Some(epk));
    assert(x.len() == curve.spec_coordinate_len());
    assert(y.len() == curve.spec_coordinate_len());
    lemma_epk_read(whole, curve, x, y);
    assert(public_of(decrypter.key) == Some(holder.key));
    let peer = ec_public_encoded(curve.bits(), x, y)->0;
    assert(epk_peer(whole) == Some(peer));
    assert(ecdh_secret(decrypter.key, peer) == ecdh_secret(nonce, holder.key));
    assert(party_info(whole, "apu"@) == party_info(asked, "apu"@));
    assert(party_info(whole, "apv"@) == party_info(asked, "apv"@));
    assert(chosen_encryption(whole) == chosen_encryption(asked));
    assert forall|id: Seq<u8>, len: nat|
        #[trigger] agreed_key(decrypter.key, peer, id, whole, len) == agreed_key(
            nonce,
            holder.key,
            id,
            asked,
            len,
        ) by {}
}

/// What an encrypter wrapped, every decrypter that pairs with it unwraps:
/// one with the same key because the encrypter would, one with the private
/// key because what was drawn is an encryption of the key, or a fresh key
/// that agrees both ways.
pub proof fn lemma_pairs_recover(
    holder: Keyed,
    cek: Seq<u8>,
    nonce: Seq<u8>,
    asked: Claims,
    before: Claims,
    encrypted_key: Option<Seq<u8>>,
    after: Claims,
)
    requires
        claims_ok(before),
        key_wrapped_for(holder, cek, nonce, asked, before) == Ok::<
            (Option<Seq<u8>>, Claims),
            JoseError,
        >((encrypted_key, after)),
        holder.algorithm.shared_key() ==> key_unwrapped(holder, encrypted_key, after) == Ok::<
            Seq<u8>,
            JoseError,
        >(cek),
        sealed_for(holder, cek, nonce),
        agreement_wrapped(holder, cek, nonce, asked, encrypted_key),
        derived_as(holder, cek, nonce, asked),
    ensures
        recovered_by_pairs(holder, encrypted_key, asked, after, cek),
{
    assert forall|decrypter: Keyed, whole: Claims|
        #![trigger pairs(decrypter, holder), reads_alike(holder.algorithm, whole, asked, after)]
        pairs(decrypter, holder) && reads_alike(holder.algorithm, whole, asked, after) implies key_unwrapped(
        decrypter,
        encrypted_key,
        whole,
    ) == Ok::<Seq<u8>, JoseError>(cek) by {
        if holder.algorithm.shared_key() {
            assert(key_unwrapped(decrypter, encrypted_key, whole) == key_unwrapped(
                holder,
                encrypted_key,
                after,
            ));
        } else if holder.algorithm is Rsaes {
            assert(public_of(decrypter.key) == Some(holder.key));
        } else {
            lemma_agreement_recovers(
                holder,
                decrypter,
                cek,
                nonce,
                asked,
                before,
                encrypted_key,
                after,
                whole,
            );
        }
    }
}

/// The content-encryption key of a message: the key itself for the direct
/// use, the key agreed on where that is used directly, else the random bytes
/// drawn for it. Either must have the length that the content encryption
/// takes.
pub open spec fn content_key(
    holder: Keyed,
    enc: JweContentEncryption,
    seed: Seq<u8>,
    nonce: Seq<u8>,
    claims: Claims,
) -> Result<Seq<u8>, JoseError> {
    if holder.algorithm.agrees_directly() {
        match agreed_key(
            nonce,
            holder.key,
            encode_utf8(enc.spec_name()),
            claims,
            enc.spec_key_len(),
        ) {
            Some(k) => Ok(k),
            None => Err(JoseError::KeyMismatch),
        }
    } else {
        let key = if holder.algorithm is Direct {
            holder.key
        } else {
            seed
        };
        if key.len() == enc.spec_key_len() {
            Ok(key)
        } else {
            Err(JoseError::KeyMismatch)
        }
    }
}

/// The key that RSA decryption recovers.
pub open spec fn rsa_recovered(algorithm: JweAlgorithm, key: Seq<u8>, ciphertext: Seq<u8>) -> Option<
    Seq<u8>,
> {
    match algorithm.spec_oaep() {
        Some(hash) => rsa_oaep_opened(hash.bits(), key, ciphertext),
        None => rsa_pkcs1_opened(key, ciphertext),
    }
}

/// The content-encryption key that the decrypter recovers from the encrypted
/// key and the header's claims.
pub open spec fn key_unwrapped(holder: Keyed, encrypted_key: Option<Seq<u8>>, claims: Claims) -> Result<
    Seq<u8>,
    JoseError,
> {
    let key = holder.key;
    if !holder.algorithm.takes_key(key) {
        Err(JoseError::KeyMismatch)
    } else {
        match holder.algorithm {
            JweAlgorithm::Direct(_) => if encrypted_key is Some {
                Err(JoseError::MalformedInput)
            } else {
                Ok(key)
            },
            JweAlgorithm::Aeskw(_) => match encrypted_key {
                None => Err(JoseError::MalformedInput),
                Some(w) => if !unwrappable(w) {
                    Err(JoseError::DecryptionFailed)
                } else {
                    match aes_kw_unwrapped(key, w) {
                        Some(k) => Ok(k),
                        None => Err(JoseError::DecryptionFailed),
                    }
                },
            },
            JweAlgorithm::Aesgcmkw(_) => match (
                encrypted_key,
                claim_bytes(claims, "iv"@),
                claim_bytes(claims, "tag"@),
            ) {
                (Some(w), Some(iv), Some(tag)) => if iv.len() != 12 || tag.len() != 16 || w.len()
                    > MAX_KEY_LEN {
                    Err(JoseError::DecryptionFailed)
                } else {
                    match aes_gcm_opened(key, iv, Seq::empty(), w, tag) {
                        Some(k) => Ok(k),
                        None => Err(JoseError::DecryptionFailed),
                    }
                },
                _ => Err(JoseError::MalformedInput),
            },
            JweAlgorithm::Pbes2HmacAeskw(_) => match (
                encrypted_key,
                claim_bytes(claims, "p2s"@),
                claim_rounds(claims),
            ) {
                (Some(w), Some(input), Some(rounds)) => if !unwrappable(w) || input.len()
                    < MIN_SALT_LEN || input.len() > MAX_KEY_LEN || pbes2_salt(
                    holder.algorithm,
                    input,
                ).len() > MAX_INPUT_LEN {
                    Err(JoseError::DecryptionFailed)
                } else {
                    match pbkdf2_key(
                        holder.algorithm.spec_hash().bits(),
                        key,
                        pbes2_salt(holder.algorithm, input),
                        rounds,
                        holder.algorithm.spec_size().spec_len(),
                    ) {
                        Some(derived) => match aes_kw_unwrapped(derived, w) {
                            Some(k) => Ok(k),
                            None => Err(JoseError::DecryptionFailed),
                        },
                        None => Err(JoseError::DecryptionFailed),
                    }
                },
                _ => Err(JoseError::MalformedInput),
            },
            JweAlgorithm::Rsaes(_) => match encrypted_key {
                None => Err(JoseError::MalformedInput),
                Some(c) => match rsa_recovered(holder.algorithm, key, c) {
                    Some(k) => Ok(k),
                    None => Err(JoseError::DecryptionFailed),
                },
            },
            JweAlgorithm::EcdhEs(_) => match epk_peer(claims) {
                None => Err(JoseError::MalformedInput),
                Some(peer) => if holder.algorithm.agrees_directly() {
                    match (encrypted_key, chosen_encryption(claims)) {
                        (Some(_), _) => Err(JoseError::MalformedInput),
                        (None, Err(e)) => Err(e),
                        (None, Ok(enc)) => match agreed_key(
                            key,
                            peer,
                            encode_utf8(enc.spec_name()),
                            claims,
                            enc.spec_key_len(),
                        ) {
                            Some(k) => Ok(k),
                            None => Err(JoseError::DecryptionFailed),
                        },
                    }
                } else {
                    match encrypted_key {
                        None => Err(JoseError::MalformedInput),
                        Some(w) => if !unwrappable(w) {
                            Err(JoseError::DecryptionFailed)
                        } else {
                            match agreed_key(
                                key,
                                peer,
                                encode_utf8(holder.algorithm.spec_name()),
                                claims,
                                holder.algorithm.spec_size().spec_len(),
                            ) {
                                Some(kek) => match aes_kw_unwrapped(kek, w) {
                                    Some(k) => Ok(k),
                                    None => Err(JoseError::DecryptionFailed),
                                },
                                None => Err(JoseError::DecryptionFailed),
                            }
                        },
                    }
                },
            },
        }
    }
}

/// The view of a recovered key.
pub open spec fn key_view(r: Result<Vec<u8>, JoseError>) -> Result<Seq<u8>, JoseError> {
    match r {
        Ok(k) => Ok(k@),
        Err(e) => Err(e),
    }
}

/// The names under which the algorithms keep their parameters ask for no
/// type of their own, and differ from each other.
pub proof fn lemma_parameter_names()
    ensures
        forall|v: Json| claim_fits("iv"@, v),
        forall|v: Json| claim_fits("tag"@, v),
        forall|v: Json| claim_fits("p2s"@, v),
        forall|v: Json| claim_fits("p2c"@, v),
        forall|v: Json| claim_fits("epk"@, v),
        "iv"@ != "tag"@,
        "p2s"@ != "p2c"@,
{
    reveal_strlit("iv");
    reveal_strlit("tag");
    reveal_strlit("p2s");
    reveal_strlit("p2c");
    reveal_strlit("alg");
    reveal_strlit("enc");
    reveal_strlit("zip");
    reveal_strlit("jku");
    reveal_strlit("x5u");
    reveal_strlit("x5t");
    reveal_strlit("x5t#S256");
    reveal_strlit("kid");
    reveal_strlit("typ");
    reveal_strlit("cty");
    reveal_strlit("crit");
    reveal_strlit("x5c");
    reveal_strlit("jwk");
    assert("iv"@.len() == 2);
    assert("tag"@[0] == 't');
    assert("p2s"@[2] == 's');
    assert("p2c"@[2] == 'c');
    assert forall|v: Json| claim_fits("iv"@, v) by {
        assert(!is_text_claim("iv"@));
        assert(!is_text_list_claim("iv"@));
    }
    assert forall|v: Json| claim_fits("tag"@, v) by {
        assert("tag"@[1] == 'a');
        assert(!is_text_claim("tag"@));
        assert(!is_text_list_claim("tag"@));
    }
    assert forall|v: Json| claim_fits("p2s"@, v) by {
        assert(!is_text_claim("p2s"@));
        assert(!is_text_list_claim("p2s"@));
    }
    assert forall|v: Json| claim_fits("epk"@, v) by {
        reveal_strlit("epk");
        assert("epk"@[1] == 'p');
        assert("enc"@[1] == 'n');
        assert(!is_text_claim("epk"@));
        assert(!is_text_list_claim("epk"@));
    }
    assert forall|v: Json| claim_fits("p2c"@, v) by {
        assert("p2c"@[0] == 'p');
        assert("cty"@[0] == 'c');
        assert("x5c"@[0] == 'x');
        assert(!is_text_claim("p2c"@));
        assert(!is_text_list_claim("p2c"@));
    }
}

/// The view of an optional slice.
pub open spec fn slice_view(b: Option<&[u8]>) -> Option<Seq<u8>> {
    match b {
        Some(v) => Some(v@),
        None => None,
    }
}

/// Says whether the AES key wrap takes a key of this length.
fn check_wrappable(len: usize) -> (r: bool)
    ensures
        r == (16 <= len <= MAX_KEY_LEN && len % 8 == 0),
{
    16 <= len && len <= MAX_KEY_LEN && len % 8 == 0
}

/// The salt of the key derivation.
fn salt_of(algorithm: JweAlgorithm, input: &[u8]) -> (r: Vec<u8>)
    ensures
        r@ == pbes2_salt(algorithm, input@),
{
    let mut salt: Vec<u8> = Vec::new();
    append(&mut salt, algorithm.name().as_bytes());
    salt.push(0u8);
    append(&mut salt, input);
    assert(salt@ =~= pbes2_salt(algorithm, input@));
    salt
}

impl JweEncrypter {
    /// The algorithm.
    pub fn algorithm(&self) -> (r: JweAlgorithm)
        ensures
            r == self@.algorithm,
    {
        self.algorithm
    }

    /// The key's identifier, if one was set.
    pub fn key_id(&self) -> (r: Option<&str>)
        ensures
            match r {
                Some(t) => self@.key_id == Some(t@),
                None => self@.key_id is None,
            },
    {
        match &self.key_id {
            Some(t) => Some(t.as_str()),
            None => None,
        }
    }

    /// Sets the key's identifier.
    pub fn set_key_id(&mut self, id: &str)
        ensures
            final(self)@ == (Keyed { key_id: Some(id@), ..old(self)@ }),
    {
        self.key_id = Some(id.to_owned());
    }

    /// Removes the key's identifier.
    pub fn remove_key_id(&mut self)
        ensures
            final(self)@ == (Keyed { key_id: None, ..old(self)@ }),
    {
        self.key_id = None;
    }

    /// Sets how many bytes of salt a password-based algorithm draws.
    pub fn set_salt_len(&mut self, len: usize)
        ensures
            final(self)@ == (Keyed { salt_len: len as nat, ..old(self)@ }),
    {
        self.salt_len = len;
    }

    /// Sets how many rounds a password-based algorithm derives its key with.
    pub fn set_iterations(&mut self, rounds: usize)
        ensures
            final(self)@ == (Keyed { iterations: rounds as nat, ..old(self)@ }),
    {
        self.iterations = rounds;
    }

    /// Draws what wrapping takes besides the key: random bytes for an IV or
    /// a salt; for RSA the encryption of `seed` under the key, whose padding
    /// is random; for a key agreement a fresh private key in DER. Nothing is
    /// drawn for the direct use and the plain key wrap, which therefore
    /// succeed. A salt that is too long is refused before anything is drawn.
    /// Else a failure is the random source's, or for a public-key algorithm
    /// the refusal of the key.
    pub fn draw(&self, seed: &[u8]) -> (r: Result<Vec<u8>, JoseError>)
        ensures
            match r {
                Ok(nonce) => drawn(self@, seed@, nonce@),
                Err(e) => e == JoseError::RandomSourceFailed || (e == JoseError::KeyMismatch && (
                !self@.algorithm.shared_key() || (self@.algorithm is Pbes2HmacAeskw
                    && self@.salt_len > MAX_KEY_LEN))),
            },
            self@.algorithm is Direct || self@.algorithm is Aeskw ==> r is Ok,
            self@.algorithm is Pbes2HmacAeskw && self@.salt_len > MAX_KEY_LEN ==> r == Err::<
                Vec<u8>,
                JoseError,
            >(JoseError::KeyMismatch),
    {
        match self.algorithm {
            JweAlgorithm::Aesgcmkw(_) => match random_bytes(12) {
                Some(n) => Ok(n),
                None => Err(JoseError::RandomSourceFailed),
            },
            JweAlgorithm::Pbes2HmacAeskw(_) => {
                if self.salt_len > MAX_KEY_LEN {
                    return Err(JoseError::KeyMismatch);
                }
                match random_bytes(self.salt_len) {
                    Some(n) => Ok(n),
                    None => Err(JoseError::RandomSourceFailed),
                }
            },
            JweAlgorithm::Rsaes(_) => {
                let sealed = match self.algorithm.oaep() {
                    Some(hash) => rsa_seal_oaep(hash, self.key.as_slice(), seed),
                    None => rsa_seal_pkcs1(self.key.as_slice(), seed),
                };
                match sealed {
                    Some(c) => Ok(c),
                    None => Err(JoseError::KeyMismatch),
                }
            },
            JweAlgorithm::EcdhEs(_) => match ec_ephemeral(self.key.as_slice()) {
                Some(k) => Ok(k),
                None => Err(JoseError::KeyMismatch),
            },
            _ => Ok(Vec::new()),
        }
    }

    /// The content-encryption key of a message: the key itself for the
    /// direct use, the key agreed on where that is used directly, else
    /// `seed`.
    pub fn content_key(
        &self,
        enc: JweContentEncryption,
        seed: &[u8],
        nonce: &[u8],
        header: &JweHeader,
    ) -> (r: Result<Vec<u8>, JoseError>)
        ensures
            key_view(r) == content_key(self@, enc, seed@, nonce@, header@),
            r matches Ok(k) ==> k@.len() == enc.spec_key_len(),
    {
        match self.algorithm {
            JweAlgorithm::EcdhEs(EcdhEsJweAlgorithm::EcdhEs) => {
                match agree(
                    nonce,
                    self.key.as_slice(),
                    enc.name().as_bytes(),
                    header,
                    enc.key_len(),
                ) {
                    Some(k) => Ok(k),
                    None => Err(JoseError::KeyMismatch),
                }
            },
            JweAlgorithm::Direct(_) => {
                if self.key.len() == enc.key_len() {
                    Ok(self.key.clone())
                } else {
                    Err(JoseError::KeyMismatch)
                }
            },
            _ => {
                if seed.len() == enc.key_len() {
                    Ok(vstd::slice::slice_to_vec(seed))
                } else {
                    Err(JoseError::KeyMismatch)
                }
            },
        }
    }

    /// Wraps `cek`, taking `nonce` for the random bytes, and writes the
    /// algorithm's parameters into the header, which is also the header
    /// that is asked. On failure the header stays as it was.
    pub fn wrap_key(&self, cek: &[u8], nonce: &[u8], header: &mut JweHeader) -> (r: Result<
        Option<Vec<u8>>,
        JoseError,
    >)
        requires
            old(header).wf(),
        ensures
            final(header).wf(),
            match key_wrapped(self@, cek@, nonce@, old(header)@) {
                Ok((ek, claims)) => r matches Ok(k) && bytes_view(k) == ek && final(header)@
                    == claims,
                Err(e) => r == Err::<Option<Vec<u8>>, JoseError>(e) && final(header)@ == old(
                    header,
                )@,
            },
            r matches Ok(Some(k)) ==> k@.len() > 0,
            r matches Ok(k) ==> (self@.algorithm.shared_key() && (self@.algorithm is Direct ==> cek@
                == self@.key) ==> key_unwrapped(self@, bytes_view(k), final(header)@) == Ok::<
                Seq<u8>,
                JoseError,
            >(cek@)),
            r matches Ok(k) ==> agreement_wrapped(
                self@,
                cek@,
                nonce@,
                old(header)@,
                bytes_view(k),
            ),
    {
        let asked = header.clone();
        self.wrap_key_for(cek, nonce, &asked, header)
    }

    /// Wraps `cek`, taking `nonce` for the random bytes, and writes the
    /// algorithm's parameters into the header. What the header says of the
    /// two parties of a key agreement is asked of `asked`, the header that
    /// holds for the recipient. On failure the header stays as it was. What
    /// is wrapped here, a decrypter of the same algorithm and key recovers;
    /// what is wrapped under an agreed key is undone under that key.
    #[verifier::rlimit(40)]
    pub fn wrap_key_for(
        &self,
        cek: &[u8],
        nonce: &[u8],
        asked: &JweHeader,
        header: &mut JweHeader,
    ) -> (r: Result<Option<Vec<u8>>, JoseError>)
        requires
            old(header).wf(),
        ensures
            final(header).wf(),
            match key_wrapped_for(self@, cek@, nonce@, asked@, old(header)@) {
                Ok((ek, claims)) => r matches Ok(k) && bytes_view(k) == ek && final(header)@
                    == claims,
                Err(e) => r == Err::<Option<Vec<u8>>, JoseError>(e) && final(header)@ == old(
                    header,
                )@,
            },
            r matches Ok(Some(k)) ==> k@.len() > 0,
            r matches Ok(k) ==> (self@.algorithm.shared_key() && (self@.algorithm is Direct ==> cek@
                == self@.key) ==> key_unwrapped(self@, bytes_view(k), final(header)@) == Ok::<
                Seq<u8>,
                JoseError,
            >(cek@)),
            r matches Ok(k) ==> agreement_wrapped(self@, cek@, nonce@, asked@, bytes_view(k)),
    {
        let key = self.key.as_slice();
        match self.algorithm {
            JweAlgorithm::Direct(_) => Ok(None),
            JweAlgorithm::Aeskw(_) => {
                if !self.algorithm.check_key(key) || !check_wrappable(cek.len()) {
                    return Err(JoseError::KeyMismatch);
                }
                match aes_kw_wrap(key, cek) {
                    Some(w) => Ok(Some(w)),
                    None => Err(JoseError::KeyMismatch),
                }
            },
            JweAlgorithm::Aesgcmkw(_) => {
                if !self.algorithm.check_key(key) || nonce.len() != 12 || cek.len() < 1
                    || cek.len() > MAX_KEY_LEN {
                    return Err(JoseError::KeyMismatch);
                }
                let none: Vec<u8> = Vec::new();
                assert(none@ =~= Seq::<u8>::empty());
                match aes_gcm_seal(self.algorithm.size(), key, nonce, none.as_slice(), cek) {
                    Some((c, t)) => {
                        let iv_text = encode_text(nonce);
                        let tag_text = encode_text(t.as_slice());
                        proof {
                            lemma_parameter_names();
                            let first = with_claim(old(header)@, "iv"@, Json::String(iv_text@));
                            crate::header::lemma_with_claim(
                                old(header)@,
                                "iv"@,
                                Json::String(iv_text@),
                            );
                            crate::header::lemma_with_claim(first, "tag"@, Json::String(tag_text@));
                        }
                        header.set_text_claim("iv", iv_text.as_str());
                        header.set_text_claim("tag", tag_text.as_str());
                        Ok(Some(c))
                    },
                    None => Err(JoseError::KeyMismatch),
                }
            },
            JweAlgorithm::Pbes2HmacAeskw(_) => {
                if !self.algorithm.check_key(key) || !check_wrappable(cek.len()) || nonce.len()
                    < MIN_SALT_LEN || nonce.len() > MAX_KEY_LEN || self.iterations < MIN_ITERATIONS
                    || self.iterations > MAX_INPUT_LEN {
                    return Err(JoseError::KeyMismatch);
                }
                let salt = salt_of(self.algorithm, nonce);
                if salt.len() > MAX_INPUT_LEN {
                    return Err(JoseError::KeyMismatch);
                }
                let derived = match pbkdf2(
                    self.algorithm.hash(),
                    key,
                    salt.as_slice(),
                    self.iterations,
                    self.algorithm.size().len(),
                ) {
                    Some(d) => d,
                    None => {
                        return Err(JoseError::KeyMismatch);
                    },
                };
                match aes_kw_wrap(derived.as_slice(), cek) {
                    Some(w) => {
                        let salt_text = encode_text(nonce);
                        let rounds = JsonValue::Integer(self.iterations as i128);
                        proof {
                            lemma_parameter_names();
                            let first = with_claim(old(header)@, "p2s"@, Json::String(salt_text@));
                            crate::header::lemma_with_claim(
                                old(header)@,
                                "p2s"@,
                                Json::String(salt_text@),
                            );
                            crate::header::lemma_with_claim(first, "p2c"@, rounds@);
                        }
                        header.set_text_claim("p2s", salt_text.as_str());
                        let _ = header.set_claim("p2c", Some(rounds));
                        Ok(Some(w))
                    },
                    None => Err(JoseError::KeyMismatch),
                }
            },
            JweAlgorithm::Rsaes(_) => {
                if !self.algorithm.check_key(key) || nonce.len() == 0 {
                    return Err(JoseError::KeyMismatch);
                }
                Ok(Some(vstd::slice::slice_to_vec(nonce)))
            },
            JweAlgorithm::EcdhEs(_) => {
                if !self.algorithm.check_key(key) {
                    return Err(JoseError::KeyMismatch);
                }
                let epk = match ephemeral_public(nonce) {
                    Some(epk) => epk,
                    None => {
                        return Err(JoseError::KeyMismatch);
                    },
                };
                proof {
                    lemma_parameter_names();
                    crate::header::lemma_with_claim(old(header)@, "epk"@, epk@);
                }
                if self.algorithm.derives_key() {
                    let _ = header.set_claim("epk", Some(epk));
                    return Ok(None);
                }
                if !check_wrappable(cek.len()) {
                    return Err(JoseError::KeyMismatch);
                }
                let kek = match agree(
                    nonce,
                    key,
                    self.algorithm.name().as_bytes(),
                    asked,
                    self.algorithm.size().len(),
                ) {
                    Some(kek) => kek,
                    None => {
                        return Err(JoseError::KeyMismatch);
                    },
                };
                match aes_kw_wrap(kek.as_slice(), cek) {
                    Some(w) => {
                        let _ = header.set_claim("epk", Some(epk));
                        Ok(Some(w))
                    },
                    None => Err(JoseError::KeyMismatch),
                }
            },
        }
    }
}

impl JweDecrypter {
    /// The algorithm.
    pub fn algorithm(&self) -> (r: JweAlgorithm)
        ensures
            r == self@.algorithm,
    {
        self.algorithm
    }

    /// The key's identifier, if one was set.
    pub fn key_id(&self) -> (r: Option<&str>)
        ensures
            match r {
                Some(t) => self@.key_id == Some(t@),
                None => self@.key_id is None,
            },
    {
        match &self.key_id {
            Some(t) => Some(t.as_str()),
            None => None,
        }
    }

    /// Sets the key's identifier.
    pub fn set_key_id(&mut self, id: &str)
        ensures
            final(self)@ == (Keyed { key_id: Some(id@), ..old(self)@ }),
    {
        self.key_id = Some(id.to_owned());
    }

    /// Removes the key's identifier.
    pub fn remove_key_id(&mut self)
        ensures
            final(self)@ == (Keyed { key_id: None, ..old(self)@ }),
    {
        self.key_id = None;
    }

    /// An encrypter that pairs with this decrypter: with the same key where
    /// both sides hold one, else with the public key that belongs to the
    /// private key. It has the decrypter's key identifier. Fails where no
    /// public key can be had of the key.
    pub fn encrypter(&self) -> (r: Result<JweEncrypter, JoseError>)
        ensures
            match r {
                Ok(e) => e@ == (Keyed {
                    algorithm: self@.algorithm,
                    key: if self@.algorithm.shared_key() {
                        self@.key
                    } else {
                        public_of(self@.key)->0
                    },
                    key_id: self@.key_id,
                    salt_len: MIN_SALT_LEN as nat,
                    iterations: MIN_ITERATIONS as nat,
                }) && (self@.algorithm.shared_key() || public_of(self@.key) is Some),
                Err(e) => e == JoseError::KeyMismatch && !self@.algorithm.shared_key() && public_of(
                    self@.key,
                ) is None,
            },
    {
        let key = match self.algorithm {
            JweAlgorithm::Rsaes(_) | JweAlgorithm::EcdhEs(_) => {
                match public_der(self.key.as_slice()) {
                    Some(key) => key,
                    None => {
                        return Err(JoseError::KeyMismatch);
                    },
                }
            },
            _ => self.key.clone(),
        };
        Ok(
            JweEncrypter {
                algorithm: self.algorithm,
                key,
                key_id: self.key_id.clone(),
                salt_len: MIN_SALT_LEN,
                iterations: MIN_ITERATIONS,
            },
        )
    }

    /// The bytes that a claim holds as base64url text.
    fn claim_as_bytes(header: &JweHeader, name: &str) -> (r: Option<Vec<u8>>)
        ensures
            bytes_view(r) == claim_bytes(header@, name@),
    {
        match header.text_claim(name) {
            Some(t) => decode_text(t),
            None => None,
        }
    }

    /// The rounds that the header asks for.
    fn rounds_of(header: &JweHeader) -> (r: Option<usize>)
        ensures
            match r {
                Some(n) => claim_rounds(header@) == Some(n as nat),
                None => claim_rounds(header@) is None,
            },
    {
        match header.claim("p2c") {
            Some(JsonValue::Integer(n)) => {
                if 1 <= *n && *n <= MAX_INPUT_LEN as i128 {
                    Some(*n as usize)
                } else {
                    None
                }
            },
            _ => None,
        }
    }

    /// Recovers the content-encryption key from the encrypted key and the
    /// header's claims.
#[verifier::rlimit(40)]
    pub fn unwrap_key(&self, encrypted_key: Option<&[u8]>, header: &JweHeader) -> (r: Result<
        Vec<u8>,
        JoseError,
    >)
        ensures
            key_view(r) == key_unwrapped(self@, slice_view(encrypted_key), header@),
    {
        let key = self.key.as_slice();
        if !self.algorithm.check_key(key) {
            return Err(JoseError::KeyMismatch);
        }
        match self.algorithm {
            JweAlgorithm::Direct(_) => match encrypted_key {
                Some(_) => Err(JoseError::MalformedInput),
                None => Ok(self.key.clone()),
            },
            JweAlgorithm::Aeskw(_) => match encrypted_key {
                None => Err(JoseError::MalformedInput),
                Some(w) => {
                    if !(24 <= w.len() && w.len() <= MAX_KEY_LEN + 8 && w.len() % 8 == 0) {
                        return Err(JoseError::DecryptionFailed);
                    }
                    match aes_kw_unwrap(key, w) {
                        Some(k) => Ok(k),
                        None => Err(JoseError::DecryptionFailed),
                    }
                },
            },
            JweAlgorithm::Aesgcmkw(_) => {
                let iv = JweDecrypter::claim_as_bytes(header, "iv");
                let tag = JweDecrypter::claim_as_bytes(header, "tag");
                match (encrypted_key, iv, tag) {
                    (Some(w), Some(iv), Some(tag)) => {
                        if iv.len() != 12 || tag.len() != 16 || w.len() > MAX_KEY_LEN {
                            return Err(JoseError::DecryptionFailed);
                        }
                        let none: Vec<u8> = Vec::new();
                        assert(none@ =~= Seq::<u8>::empty());
                        match aes_gcm_open(
                            self.algorithm.size(),
                            key,
                            iv.as_slice(),
                            none.as_slice(),
                            w,
                            tag.as_slice(),
                        ) {
                            Some(k) => Ok(k),
                            None => Err(JoseError::DecryptionFailed),
                        }
                    },
                    _ => Err(JoseError::MalformedInput),
                }
            },
            JweAlgorithm::Pbes2HmacAeskw(_) => {
                let input = JweDecrypter::claim_as_bytes(header, "p2s");
                let rounds = JweDecrypter::rounds_of(header);
                match (encrypted_key, input, rounds) {
                    (Some(w), Some(input), Some(rounds)) => {
                        if !(24 <= w.len() && w.len() <= MAX_KEY_LEN + 8 && w.len() % 8 == 0)
                            || input.len() < MIN_SALT_LEN || input.len() > MAX_KEY_LEN {
                            return Err(JoseError::DecryptionFailed);
                        }
                        let salt = salt_of(self.algorithm, input.as_slice());
                        if salt.len() > MAX_INPUT_LEN {
                            return Err(JoseError::DecryptionFailed);
                        }
                        let derived = match pbkdf2(
                            self.algorithm.hash(),
                            key,
                            salt.as_slice(),
                            rounds,
                            self.algorithm.size().len(),
                        ) {
                            Some(d) => d,
                            None => {
                                return Err(JoseError::DecryptionFailed);
                            },
                        };
                        match aes_kw_unwrap(derived.as_slice(), w) {
                            Some(k) => Ok(k),
                            None => Err(JoseError::DecryptionFailed),
                        }
                    },
                    _ => Err(JoseError::MalformedInput),
                }
            },
            JweAlgorithm::Rsaes(_) => match encrypted_key {
                None => Err(JoseError::MalformedInput),
                Some(c) => {
                    let opened = match self.algorithm.oaep() {
                        Some(hash) => rsa_open_oaep(hash, key, c),
                        None => rsa_open_pkcs1(key, c),
                    };
                    match opened {
                        Some(k) => Ok(k),
                        None => Err(JoseError::DecryptionFailed),
                    }
                },
            },
            JweAlgorithm::EcdhEs(_) => {
                let peer = match peer_key(header) {
                    Some(peer) => peer,
                    None => {
                        return Err(JoseError::MalformedInput);
                    },
                };
                if self.algorithm.derives_key() {
                    if encrypted_key.is_some() {
                        return Err(JoseError::MalformedInput);
                    }
                    let enc = match choose_encryption(header) {
                        Ok(enc) => enc,
                        Err(e) => {
                            return Err(e);
                        },
                    };
                    return match agree(
                        key,
                        peer.as_slice(),
                        enc.name().as_bytes(),
                        header,
                        enc.key_len(),
                    ) {
                        Some(k) => Ok(k),
                        None => Err(JoseError::DecryptionFailed),
                    };
                }
                match encrypted_key {
                    None => Err(JoseError::MalformedInput),
                    Some(w) => {
                        if !(24 <= w.len() && w.len() <= MAX_KEY_LEN + 8 && w.len() % 8 == 0) {
                            return Err(JoseError::DecryptionFailed);
                        }
                        let kek = match agree(
                            key,
                            peer.as_slice(),
                            self.algorithm.name().as_bytes(),
                            header,
                            self.algorithm.size().len(),
                        ) {
                            Some(kek) => kek,
                            None => {
                                return Err(JoseError::DecryptionFailed);
                            },
                        };
                        match aes_kw_unwrap(kek.as_slice(), w) {
                            Some(k) => Ok(k),
                            None => Err(JoseError::DecryptionFailed),
                        }
                    },
                }
            },
        }
    }
}

} // verus!
