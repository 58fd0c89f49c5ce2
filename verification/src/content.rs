use crate::compact::append;
use crate::crypto::{
    aes_cbc_open, aes_cbc_opened, aes_cbc_seal, aes_cbc_sealed, aes_gcm_open, aes_gcm_opened,
    aes_gcm_seal, aes_gcm_sealed, cbc_len, constant_time_eq, hmac, hmac_code, AesKeySize, HashAlg,
    MAX_INPUT_LEN,
};
use crate::json::{bytes_view, str_eq};
use vstd::prelude::*;
use vstd::slice::slice_subrange;

verus! {

/// The content-encryption algorithms: AES-CBC with an HMAC over the
/// ciphertext, and AES-GCM.
#[derive(Clone, Copy, Debug, PartialEq, Eq, Structural)]
pub enum JweContentEncryption {
    A128CbcHs256,
    A192CbcHs384,
    A256CbcHs512,
    A128Gcm,
    A192Gcm,
    A256Gcm,
}

/// The eight bytes of `n`, most significant first.
pub open spec fn be64(n: u64) -> Seq<u8> {
    seq![
        ((n >> 56) & 0xff) as u8,
        ((n >> 48) & 0xff) as u8,
        ((n >> 40) & 0xff) as u8,
        ((n >> 32) & 0xff) as u8,
        ((n >> 24) & 0xff) as u8,
        ((n >> 16) & 0xff) as u8,
        ((n >> 8) & 0xff) as u8,
        (n & 0xff) as u8,
    ]
}

/// What the composite's HMAC is computed over: the associated data, the IV,
/// the ciphertext, and the associated data's length in bits as 64 bits.
pub open spec fn mac_input(aad: Seq<u8>, iv: Seq<u8>, ciphertext: Seq<u8>) -> Seq<u8> {
    aad + iv + ciphertext + be64((aad.len() * 8) as u64)
}

impl JweContentEncryption {
    /// The algorithm's name on the wire.
    pub open spec fn spec_name(self) -> Seq<char> {
        match self {
            JweContentEncryption::A128CbcHs256 => "A128CBC-HS256"@,
            JweContentEncryption::A192CbcHs384 => "A192CBC-HS384"@,
            JweContentEncryption::A256CbcHs512 => "A256CBC-HS512"@,
            JweContentEncryption::A128Gcm => "A128GCM"@,
            JweContentEncryption::A192Gcm => "A192GCM"@,
            JweContentEncryption::A256Gcm => "A256GCM"@,
        }
    }

    /// The algorithm that a name stands for.
    pub open spec fn named(name: Seq<char>) -> Option<JweContentEncryption> {
        if name == "A128CBC-HS256"@ {
            Some(JweContentEncryption::A128CbcHs256)
        } else if name == "A192CBC-HS384"@ {
            Some(JweContentEncryption::A192CbcHs384)
        } else if name == "A256CBC-HS512"@ {
            Some(JweContentEncryption::A256CbcHs512)
        } else if name == "A128GCM"@ {
            Some(JweContentEncryption::A128Gcm)
        } else if name == "A192GCM"@ {
            Some(JweContentEncryption::A192Gcm)
        } else if name == "A256GCM"@ {
            Some(JweContentEncryption::A256Gcm)
        } else {
            None
        }
    }

    /// Whether the algorithm is AES-GCM.
    pub open spec fn spec_is_gcm(self) -> bool {
        match self {
            JweContentEncryption::A128Gcm => true,
            JweContentEncryption::A192Gcm => true,
            JweContentEncryption::A256Gcm => true,
            _ => false,
        }
    }

    /// The size of the AES key.
    pub open spec fn spec_aes(self) -> AesKeySize {
        match self {
            JweContentEncryption::A128CbcHs256 => AesKeySize::Bits128,
            JweContentEncryption::A192CbcHs384 => AesKeySize::Bits192,
            JweContentEncryption::A256CbcHs512 => AesKeySize::Bits256,
            JweContentEncryption::A128Gcm => AesKeySize::Bits128,
            JweContentEncryption::A192Gcm => AesKeySize::Bits192,
            JweContentEncryption::A256Gcm => AesKeySize::Bits256,
        }
    }

    /// The hash function of the composite's HMAC.
    pub open spec fn spec_hash(self) -> HashAlg {
        match self {
            JweContentEncryption::A128CbcHs256 => HashAlg::Sha256,
            JweContentEncryption::A192CbcHs384 => HashAlg::Sha384,
            JweContentEncryption::A256CbcHs512 => HashAlg::Sha512,
            JweContentEncryption::A128Gcm => HashAlg::Sha256,
            JweContentEncryption::A192Gcm => HashAlg::Sha384,
            JweContentEncryption::A256Gcm => HashAlg::Sha512,
        }
    }

    /// The length of the content-encryption key in bytes: the AES key for
    /// GCM, a MAC key and an AES key of one length for the composite.
    pub open spec fn spec_key_len(self) -> nat {
        if self.spec_is_gcm() {
            self.spec_aes().spec_len()
        } else {
            2 * self.spec_aes().spec_len()
        }
    }

    /// The length of the IV in bytes.
    pub open spec fn spec_iv_len(self) -> nat {
        if self.spec_is_gcm() {
            12
        } else {
            16
        }
    }

    /// The length of the tag in bytes.
    pub open spec fn spec_tag_len(self) -> nat {
        if self.spec_is_gcm() {
            16
        } else {
            self.spec_aes().spec_len()
        }
    }

    /// The length of the ciphertext of `n` bytes: as many for GCM, whole
    /// blocks with at least one byte of padding for the composite.
    pub open spec fn spec_sealed_len(self, n: nat) -> nat {
        if self.spec_is_gcm() {
            n
        } else {
            cbc_len(n)
        }
    }

    /// The algorithm's name on the wire.
    pub fn name(self) -> (r: &'static str)
        ensures
            r@ == self.spec_name(),
    {
        match self {
            JweContentEncryption::A128CbcHs256 => "A128CBC-HS256",
            JweContentEncryption::A192CbcHs384 => "A192CBC-HS384",
            JweContentEncryption::A256CbcHs512 => "A256CBC-HS512",
            JweContentEncryption::A128Gcm => "A128GCM",
            JweContentEncryption::A192Gcm => "A192GCM",
            JweContentEncryption::A256Gcm => "A256GCM",
        }
    }

    /// The algorithm that `name` stands for, if it is one of them.
    pub fn from_name(name: &str) -> (r: Option<JweContentEncryption>)
        ensures
            r == JweContentEncryption::named(name@),
    {
        if str_eq(name, "A128CBC-HS256") {
            Some(JweContentEncryption::A128CbcHs256)
        } else if str_eq(name, "A192CBC-HS384") {
            Some(JweContentEncryption::A192CbcHs384)
        } else if str_eq(name, "A256CBC-HS512") {
            Some(JweContentEncryption::A256CbcHs512)
        } else if str_eq(name, "A128GCM") {
            Some(JweContentEncryption::A128Gcm)
        } else if str_eq(name, "A192GCM") {
            Some(JweContentEncryption::A192Gcm)
        } else if str_eq(name, "A256GCM") {
            Some(JweContentEncryption::A256Gcm)
        } else {
            None
        }
    }

    /// Whether the algorithm is AES-GCM.
    pub fn is_gcm(self) -> (r: bool)
        ensures
            r == self.spec_is_gcm(),
    {
        match self {
            JweContentEncryption::A128Gcm => true,
            JweContentEncryption::A192Gcm => true,
            JweContentEncryption::A256Gcm => true,
            _ => false,
        }
    }

    /// The size of the AES key.
    pub fn aes(self) -> (r: AesKeySize)
        ensures
            r == self.spec_aes(),
    {
        match self {
            JweContentEncryption::A128CbcHs256 => AesKeySize::Bits128,
            JweContentEncryption::A192CbcHs384 => AesKeySize::Bits192,
            JweContentEncryption::A256CbcHs512 => AesKeySize::Bits256,
            JweContentEncryption::A128Gcm => AesKeySize::Bits128,
            JweContentEncryption::A192Gcm => AesKeySize::Bits192,
            JweContentEncryption::A256Gcm => AesKeySize::Bits256,
        }
    }

    /// The hash function of the composite's HMAC.
    pub fn hash(self) -> (r: HashAlg)
        ensures
            r == self.spec_hash(),
    {
        match self {
            JweContentEncryption::A128CbcHs256 => HashAlg::Sha256,
            JweContentEncryption::A192CbcHs384 => HashAlg::Sha384,
            JweContentEncryption::A256CbcHs512 => HashAlg::Sha512,
            JweContentEncryption::A128Gcm => HashAlg::Sha256,
            JweContentEncryption::A192Gcm => HashAlg::Sha384,
            JweContentEncryption::A256Gcm => HashAlg::Sha512,
        }
    }

    /// The length of the content-encryption key in bytes.
    pub fn key_len(self) -> (r: usize)
        ensures
            r == self.spec_key_len(),
    {
        if self.is_gcm() {
            self.aes().len()
        } else {
            2 * self.aes().len()
        }
    }

    /// The length of the IV in bytes.
    pub fn iv_len(self) -> (r: usize)
        ensures
            r == self.spec_iv_len(),
    {
        if self.is_gcm() {
            12
        } else {
            16
        }
    }

    /// The length of the tag in bytes.
    pub fn tag_len(self) -> (r: usize)
        ensures
            r == self.spec_tag_len(),
    {
        if self.is_gcm() {
            16
        } else {
            self.aes().len()
        }
    }
}

/// The tag of the composite: the first half of the HMAC, under the first half
/// of the key, of the associated data, IV and ciphertext.
pub open spec fn composite_tag(
    enc: JweContentEncryption,
    key: Seq<u8>,
    iv: Seq<u8>,
    aad: Seq<u8>,
    ciphertext: Seq<u8>,
) -> Option<Seq<u8>> {
    let half = enc.spec_aes().spec_len() as int;
    match hmac_code(enc.spec_hash().bits(), key.subrange(0, half), mac_input(aad, iv, ciphertext)) {
        Some(code) => Some(code.subrange(0, half)),
        None => None,
    }
}

/// The inputs have the lengths that the algorithm works on.
pub open spec fn content_fits(
    enc: JweContentEncryption,
    key: Seq<u8>,
    iv: Seq<u8>,
    aad: Seq<u8>,
    data: Seq<u8>,
) -> bool {
    &&& key.len() == enc.spec_key_len()
    &&& iv.len() == enc.spec_iv_len()
    &&& aad.len() <= MAX_INPUT_LEN
    &&& data.len() + 16 <= MAX_INPUT_LEN
}

/// The ciphertext and tag of `data`: for GCM what the cipher gives; for the
/// composite the CBC ciphertext under the second half of the key, and the
/// composite's tag.
pub open spec fn content_sealed(
    enc: JweContentEncryption,
    key: Seq<u8>,
    iv: Seq<u8>,
    aad: Seq<u8>,
    data: Seq<u8>,
) -> Option<(Seq<u8>, Seq<u8>)> {
    if !content_fits(enc, key, iv, aad, data) {
        None
    } else if enc.spec_is_gcm() {
        aes_gcm_sealed(key, iv, aad, data)
    } else {
        let half = enc.spec_aes().spec_len() as int;
        match aes_cbc_sealed(key.subrange(half, 2 * half), iv, data) {
            Some(ciphertext) => match composite_tag(enc, key, iv, aad, ciphertext) {
                Some(tag) => Some((ciphertext, tag)),
                None => None,
            },
            None => None,
        }
    }
}

/// The data that a ciphertext and its tag open to, or `None` where a length
/// is wrong, the tag does not verify or the cipher refuses.
pub open spec fn content_opened(
    enc: JweContentEncryption,
    key: Seq<u8>,
    iv: Seq<u8>,
    aad: Seq<u8>,
    ciphertext: Seq<u8>,
    tag: Seq<u8>,
) -> Option<Seq<u8>> {
    if !(key.len() == enc.spec_key_len() && iv.len() == enc.spec_iv_len() && tag.len()
        == enc.spec_tag_len() && aad.len() <= MAX_INPUT_LEN && ciphertext.len() <= MAX_INPUT_LEN) {
        None
    } else if enc.spec_is_gcm() {
        aes_gcm_opened(key, iv, aad, ciphertext, tag)
    } else {
        let half = enc.spec_aes().spec_len() as int;
        if composite_tag(enc, key, iv, aad, ciphertext) == Some(tag) {
            aes_cbc_opened(key.subrange(half, 2 * half), iv, ciphertext)
        } else {
            None
        }
    }
}

/// The views of a ciphertext and its tag.
pub open spec fn sealed_view(r: Option<(Vec<u8>, Vec<u8>)>) -> Option<(Seq<u8>, Seq<u8>)> {
    match r {
        Some((c, t)) => Some((c@, t@)),
        None => None,
    }
}

/// The eight bytes of `n`, most significant first.
fn be64_bytes(n: u64) -> (r: Vec<u8>)
    ensures
        r@ == be64(n),
{
    let mut r: Vec<u8> = Vec::new();
    r.push(((n >> 56) & 0xff) as u8);
    r.push(((n >> 48) & 0xff) as u8);
    r.push(((n >> 40) & 0xff) as u8);
    r.push(((n >> 32) & 0xff) as u8);
    r.push(((n >> 24) & 0xff) as u8);
    r.push(((n >> 16) & 0xff) as u8);
    r.push(((n >> 8) & 0xff) as u8);
    r.push((n & 0xff) as u8);
    assert(r@ =~= be64(n));
    r
}

impl JweContentEncryption {
    /// Computes the composite's tag.
    fn tag_of(self, key: &[u8], iv: &[u8], aad: &[u8], ciphertext: &[u8]) -> (r: Option<Vec<u8>>)
        requires
            !self.spec_is_gcm(),
            key@.len() == self.spec_key_len(),
            aad@.len() <= MAX_INPUT_LEN,
        ensures
            bytes_view(r) == composite_tag(self, key@, iv@, aad@, ciphertext@),
            r matches Some(t) ==> t@.len() == self.spec_tag_len(),
    {
        let half = self.aes().len();
        let mut input: Vec<u8> = Vec::new();
        append(&mut input, aad);
        append(&mut input, iv);
        append(&mut input, ciphertext);
        let bits: u64 = (aad.len() as u64) * 8;
        let length = be64_bytes(bits);
        append(&mut input, length.as_slice());
        assert(input@ =~= mac_input(aad@, iv@, ciphertext@));
        match hmac(self.hash(), slice_subrange(key, 0, half), input.as_slice()) {
            Some(code) => {
                let tag = vstd::slice::slice_to_vec(slice_subrange(code.as_slice(), 0, half));
                Some(tag)
            },
            None => None,
        }
    }

    /// Encrypts `data` under `key` and `iv`, binding `aad`. Gives the
    /// ciphertext and the tag; opening them gives the data back.
    pub fn encrypt(self, key: &[u8], iv: &[u8], aad: &[u8], data: &[u8]) -> (r: Option<
        (Vec<u8>, Vec<u8>),
    >)
        ensures
            sealed_view(r) == content_sealed(self, key@, iv@, aad@, data@),
            r matches Some((c, t)) ==> content_opened(self, key@, iv@, aad@, c@, t@) == Some(
                data@,
            ) && t@.len() == self.spec_tag_len() && c@.len() == self.spec_sealed_len(
                data@.len(),
            ) && c@.len() <= data@.len() + 16,
    {
        if key.len() != self.key_len() || iv.len() != self.iv_len() || aad.len() > MAX_INPUT_LEN
            || data.len() > MAX_INPUT_LEN - 16 {
            return None;
        }
        if self.is_gcm() {
            aes_gcm_seal(self.aes(), key, iv, aad, data)
        } else {
            let half = self.aes().len();
            match aes_cbc_seal(self.aes(), slice_subrange(key, half, 2 * half), iv, data) {
                Some(ciphertext) => {
                    assert(cbc_len(data@.len()) <= data@.len() + 16) by (nonlinear_arith);
                    match self.tag_of(key, iv, aad, ciphertext.as_slice()) {
                        Some(tag) => Some((ciphertext, tag)),
                        None => None,
                    }
                },
                None => None,
            }
        }
    }

    /// Verifies the tag and decrypts. Every failure is the same `None`.
    pub fn decrypt(self, key: &[u8], iv: &[u8], aad: &[u8], ciphertext: &[u8], tag: &[u8]) -> (r:
        Option<Vec<u8>>)
        ensures
            bytes_view(r) == content_opened(self, key@, iv@, aad@, ciphertext@, tag@),
    {
        if key.len() != self.key_len() || iv.len() != self.iv_len() || tag.len() != self.tag_len()
            || aad.len() > MAX_INPUT_LEN || ciphertext.len() > MAX_INPUT_LEN {
            return None;
        }
        if self.is_gcm() {
            aes_gcm_open(self.aes(), key, iv, aad, ciphertext, tag)
        } else {
            let half = self.aes().len();
            match self.tag_of(key, iv, aad, ciphertext) {
                Some(expected) => {
                    if constant_time_eq(expected.as_slice(), tag) {
                        aes_cbc_open(self.aes(), slice_subrange(key, half, 2 * half), iv, ciphertext)
                    } else {
                        None
                    }
                },
                None => None,
            }
        }
    }
}

} // verus!
