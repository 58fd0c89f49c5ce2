use crate::alg::{key_unwrapped, slice_view, JweDecrypter, Keyed};
use crate::base64url::{base64url_bytes, decode};
use crate::compact::{parts_view, segments, split};
use crate::content::{content_opened, JweContentEncryption};
use crate::deflate::{inflate, inflated};
use crate::error::JoseError;
use crate::header::{claims_parsed, Claims, JweHeader};
use crate::json::{lookup, lookup_text, str_eq, Json, JsonValue};
use vstd::prelude::*;

verus! {

/// The parts of a message as mathematics sees them: the associated data, the
/// claims of its header, the encrypted key if there is one, the IV, the
/// ciphertext and the tag.
pub struct Sealed {
    pub aad: Seq<u8>,
    pub claims: Claims,
    pub encrypted_key: Option<Seq<u8>>,
    pub iv: Seq<u8>,
    pub ciphertext: Seq<u8>,
    pub tag: Seq<u8>,
}

/// The parts of a message, whatever form it was written in.
#[derive(Debug)]
pub struct JweMessage {
    pub aad: Vec<u8>,
    pub header: JweHeader,
    pub encrypted_key: Option<Vec<u8>>,
    pub iv: Vec<u8>,
    pub ciphertext: Vec<u8>,
    pub tag: Vec<u8>,
}

impl View for JweMessage {
    type V = Sealed;

    open spec fn view(&self) -> Sealed {
        Sealed {
            aad: self.aad@,
            claims: self.header@,
            encrypted_key: crate::json::bytes_view(self.encrypted_key),
            iv: self.iv@,
            ciphertext: self.ciphertext@,
            tag: self.tag@,
        }
    }
}

/// The content-encryption algorithm that the claim `enc` names. The claim is
/// mandatory.
pub open spec fn chosen_encryption(claims: Claims) -> Result<JweContentEncryption, JoseError> {
    match lookup_text(claims, "enc"@) {
        None => Err(JoseError::HeaderConflict),
        Some(name) => match JweContentEncryption::named(name) {
            Some(enc) => Ok(enc),
            None => Err(JoseError::UnsupportedAlgorithm),
        },
    }
}

/// Whether the claim `zip` asks for DEFLATE. Any other value of the claim is
/// not supported.
pub open spec fn chosen_compression(claims: Claims) -> Result<bool, JoseError> {
    match lookup(claims, "zip"@) {
        None => Ok(false),
        Some(Json::String(name)) => if name == "DEF"@ {
            Ok(true)
        } else {
            Err(JoseError::UnsupportedAlgorithm)
        },
        Some(_) => Err(JoseError::UnsupportedAlgorithm),
    }
}

/// Every name that the claim `crit` lists is one of `acceptable`.
pub open spec fn criticals_accepted(claims: Claims, acceptable: Seq<Seq<char>>) -> bool {
    match lookup(claims, "crit"@) {
        None => true,
        Some(Json::Array(items)) => forall|i: int|
            0 <= i < items.len() ==> match #[trigger] items[i] {
                Json::String(name) => acceptable.contains(name),
                _ => false,
            },
        Some(_) => false,
    }
}

/// The bytes of a segment of base64url text.
pub open spec fn segment_bytes(text: Seq<u8>) -> Option<Seq<u8>> {
    base64url_bytes(text)
}

/// The parts that a compact text holds: five segments, the first of them the
/// header's JSON text, all in base64url. The associated data is the first
/// segment as it stands. An empty second segment is no encrypted key.
pub open spec fn compact_parsed(text: Seq<u8>) -> Result<Sealed, JoseError> {
    let parts = segments(text);
    if parts.len() != 5 {
        Err(JoseError::MalformedInput)
    } else {
        match (
            segment_bytes(parts[0]),
            segment_bytes(parts[1]),
            segment_bytes(parts[2]),
            segment_bytes(parts[3]),
            segment_bytes(parts[4]),
        ) {
            (Some(header), Some(key), Some(iv), Some(ciphertext), Some(tag)) => match claims_parsed(
                header,
            ) {
                Some(claims) => Ok(
                    Sealed {
                        aad: parts[0],
                        claims,
                        encrypted_key: if parts[1].len() == 0 {
                            None
                        } else {
                            Some(key)
                        },
                        iv,
                        ciphertext,
                        tag,
                    },
                ),
                None => Err(JoseError::MalformedInput),
            },
            _ => Err(JoseError::MalformedInput),
        }
    }
}

/// The payload that the content opens to under a key: the tag is verified
/// and the ciphertext decrypted, and only then is the content inflated where
/// the header asks for it. Every failure is the same.
pub open spec fn content_recovered(message: Sealed, enc: JweContentEncryption, zip: bool, cek: Seq<u8>) -> Result<
    Seq<u8>,
    JoseError,
> {
    match content_opened(enc, cek, message.iv, message.aad, message.ciphertext, message.tag) {
        None => Err(JoseError::DecryptionFailed),
        Some(content) => if zip {
            match inflated(content) {
                Some(payload) => Ok(payload),
                None => Err(JoseError::DecryptionFailed),
            }
        } else {
            Ok(content)
        },
    }
}

/// The payload that a decrypter opens a message to. The header is checked
/// first: its content encryption and compression, the names it calls
/// critical, its algorithm against the decrypter's, and its key identifier
/// against the decrypter's if that has one. Then the key is recovered and
/// the content opened, and only then inflated. Whatever fails from the
/// unwrapping on, but for a key that does not fit, is one failure.
pub open spec fn message_opened(message: Sealed, holder: Keyed, acceptable: Seq<Seq<char>>) -> Result<
    Seq<u8>,
    JoseError,
> {
    match chosen_encryption(message.claims) {
        Err(e) => Err(e),
        Ok(enc) => match chosen_compression(message.claims) {
            Err(e) => Err(e),
            Ok(zip) => if !criticals_accepted(message.claims, acceptable) {
                Err(JoseError::HeaderConflict)
            } else {
                match lookup_text(message.claims, "alg"@) {
                    None => Err(JoseError::HeaderConflict),
                    Some(name) => if name != holder.algorithm.spec_name() {
                        Err(JoseError::NoApplicableAlgorithm)
                    } else if holder.key_id is Some && lookup_text(message.claims, "kid"@)
                        != holder.key_id {
                        Err(JoseError::NoApplicableAlgorithm)
                    } else {
                        match key_unwrapped(holder, message.encrypted_key, message.claims) {
                            Err(e) => Err(e),
                            Ok(cek) => if cek.len() != enc.spec_key_len() {
                                if holder.algorithm is Direct {
                                    Err(JoseError::KeyMismatch)
                                } else {
                                    Err(JoseError::DecryptionFailed)
                                }
                            } else {
                                content_recovered(message, enc, zip, cek)
                            },
                        }
                    },
                }
            },
        },
    }
}

/// The payload and header that a decrypter opens a compact text to.
pub open spec fn compact_opened(text: Seq<u8>, holder: Keyed, acceptable: Seq<Seq<char>>) -> Result<
    (Seq<u8>, Claims),
    JoseError,
> {
    match compact_parsed(text) {
        Err(e) => Err(e),
        Ok(message) => match message_opened(message, holder, acceptable) {
            Err(e) => Err(e),
            Ok(payload) => Ok((payload, message.claims)),
        },
    }
}

/// The view of a message or its refusal.
pub open spec fn message_view(r: Result<JweMessage, JoseError>) -> Result<Sealed, JoseError> {
    match r {
        Ok(m) => Ok(m@),
        Err(e) => Err(e),
    }
}

/// The view of a payload with its header, or of the refusal.
pub open spec fn opened_view(r: Result<(Vec<u8>, JweHeader), JoseError>) -> Result<
    (Seq<u8>, Claims),
    JoseError,
> {
    match r {
        Ok((p, h)) => Ok((p@, h@)),
        Err(e) => Err(e),
    }
}

/// The content-encryption algorithm that the header names.
pub fn choose_encryption(header: &JweHeader) -> (r: Result<JweContentEncryption, JoseError>)
    ensures
        r == chosen_encryption(header@),
{
    match header.content_encryption() {
        None => Err(JoseError::HeaderConflict),
        Some(name) => match JweContentEncryption::from_name(name) {
            Some(enc) => Ok(enc),
            None => Err(JoseError::UnsupportedAlgorithm),
        },
    }
}

/// Whether the header asks for DEFLATE.
pub fn choose_compression(header: &JweHeader) -> (r: Result<bool, JoseError>)
    ensures
        r == chosen_compression(header@),
{
    match header.claim("zip") {
        None => Ok(false),
        Some(JsonValue::String(name)) => if str_eq(name.as_str(), "DEF") {
            Ok(true)
        } else {
            Err(JoseError::UnsupportedAlgorithm)
        },
        Some(_) => Err(JoseError::UnsupportedAlgorithm),
    }
}

impl JweMessage {
    /// The message's invariant: that of its header.
    pub open spec fn wf(&self) -> bool {
        self.header.wf()
    }

    /// Reads a compact text into its parts.
#[verifier::rlimit(40)]
    pub fn parse_compact(input: &[u8]) -> (r: Result<JweMessage, JoseError>)
        ensures
            message_view(r) == compact_parsed(input@),
            r matches Ok(m) ==> m.wf(),
    {
        let parts = split(input);
        if parts.len() != 5 {
            return Err(JoseError::MalformedInput);
        }
        assert(segments(input@).len() == 5);
        assert(forall|i: int| 0 <= i < 5 ==> #[trigger] parts_view(parts@)[i] == parts@[i]@);
        let header_bytes = decode(parts[0].as_slice());
        let key = decode(parts[1].as_slice());
        let iv = decode(parts[2].as_slice());
        let ciphertext = decode(parts[3].as_slice());
        let tag = decode(parts[4].as_slice());
        match (header_bytes, key, iv, ciphertext, tag) {
            (Some(header_bytes), Some(key), Some(iv), Some(ciphertext), Some(tag)) => {
                match JweHeader::from_bytes(header_bytes.as_slice()) {
                    Ok(header) => {
                        let encrypted_key = if parts[1].len() == 0 {
                            None
                        } else {
                            Some(key)
                        };
                        Ok(
                            JweMessage {
                                aad: parts[0].clone(),
                                header,
                                encrypted_key,
                                iv,
                                ciphertext,
                                tag,
                            },
                        )
                    },
                    Err(_) => Err(JoseError::MalformedInput),
                }
            },
            _ => Err(JoseError::MalformedInput),
        }
    }
}

/// Says whether `name` is one of `names`.
pub fn contains_name(names: &Vec<String>, name: &str) -> (r: bool)
    ensures
        r == names_view(names@).contains(name@),
{
    let mut i: usize = 0;
    while i < names.len()
        invariant
            i <= names@.len(),
            forall|k: int| 0 <= k < i ==> names_view(names@)[k] != name@,
        decreases names@.len() - i,
    {
        if str_eq(names[i].as_str(), name) {
            assert(names_view(names@)[i as int] == name@);
            return true;
        }
        i += 1;
    }
    false
}

/// The views of a list of names.
pub open spec fn names_view(names: Seq<String>) -> Seq<Seq<char>> {
    Seq::new(names.len(), |i: int| names[i]@)
}

/// Says whether every name that the header calls critical is one of
/// `acceptable`.
#[verifier::loop_isolation(false)]
pub fn accepts_criticals(header: &JweHeader, acceptable: &Vec<String>) -> (r: bool)
    ensures
        r == criticals_accepted(header@, names_view(acceptable@)),
{
    match header.claim("crit") {
        None => true,
        Some(JsonValue::Array(items)) => {
            proof {
                crate::json::lemma_array_view(*items);
            }
            let ghost listed = crate::json::items_view(items@);
            let mut i: usize = 0;
            while i < items.len()
                invariant
                    i <= items@.len(),
                    forall|k: int|
                        0 <= k < i ==> match #[trigger] listed[k] {
                            Json::String(name) => names_view(acceptable@).contains(name),
                            _ => false,
                        },
                decreases items@.len() - i,
            {
                match &items[i] {
                    JsonValue::String(name) => {
                        if !contains_name(acceptable, name.as_str()) {
                            assert(listed[i as int] == Json::String(name@));
                            return false;
                        }
                    },
                    _ => {
                        assert(!(listed[i as int] is String));
                        return false;
                    },
                }
                i += 1;
            }
            true
        },
        Some(_) => false,
    }
}

/// Opens a message with a decrypter.
pub fn open_message(message: &JweMessage, decrypter: &JweDecrypter, acceptable: &Vec<String>) -> (r:
    Result<Vec<u8>, JoseError>)
    ensures
        crate::alg::key_view(r) == message_opened(message@, decrypter@, names_view(acceptable@)),
{
    let encrypted_key: Option<&[u8]> = match &message.encrypted_key {
        Some(k) => Some(k.as_slice()),
        None => None,
    };
    open_parts(
        &message.header,
        encrypted_key,
        message.aad.as_slice(),
        message.iv.as_slice(),
        message.ciphertext.as_slice(),
        message.tag.as_slice(),
        decrypter,
        acceptable,
    )
}

/// Opens the parts of a message with a decrypter: checks the header,
/// recovers the key, verifies the tag and decrypts, and inflates the content
/// where the header asks for it.
#[verifier::rlimit(40)]
pub fn open_parts(
    header: &JweHeader,
    encrypted_key: Option<&[u8]>,
    aad: &[u8],
    iv: &[u8],
    ciphertext: &[u8],
    tag: &[u8],
    decrypter: &JweDecrypter,
    acceptable: &Vec<String>,
) -> (r: Result<Vec<u8>, JoseError>)
    ensures
        crate::alg::key_view(r) == message_opened(
            Sealed {
                aad: aad@,
                claims: header@,
                encrypted_key: slice_view(encrypted_key),
                iv: iv@,
                ciphertext: ciphertext@,
                tag: tag@,
            },
            decrypter@,
            names_view(acceptable@),
        ),
{
    let enc = match choose_encryption(header) {
        Ok(enc) => enc,
        Err(e) => {
            return Err(e);
        },
    };
    let zip = match choose_compression(header) {
        Ok(zip) => zip,
        Err(e) => {
            return Err(e);
        },
    };
    if !accepts_criticals(header, acceptable) {
        return Err(JoseError::HeaderConflict);
    }
    match header.algorithm() {
        None => {
            return Err(JoseError::HeaderConflict);
        },
        Some(name) => {
            if !str_eq(name, decrypter.algorithm().name()) {
                return Err(JoseError::NoApplicableAlgorithm);
            }
        },
    }
    match decrypter.key_id() {
        Some(expected) => {
            match header.key_id() {
                Some(actual) => {
                    if !str_eq(actual, expected) {
                        return Err(JoseError::NoApplicableAlgorithm);
                    }
                },
                None => {
                    return Err(JoseError::NoApplicableAlgorithm);
                },
            }
        },
        None => {},
    }
    let cek = match decrypter.unwrap_key(encrypted_key, header) {
        Ok(cek) => cek,
        Err(e) => {
            return Err(e);
        },
    };
    if cek.len() != enc.key_len() {
        return match decrypter.algorithm() {
            crate::alg::JweAlgorithm::Direct(_) => Err(JoseError::KeyMismatch),
            _ => Err(JoseError::DecryptionFailed),
        };
    }
    match enc.decrypt(cek.as_slice(), iv, aad, ciphertext, tag) {
        None => Err(JoseError::DecryptionFailed),
        Some(content) => {
            if zip {
                match inflate(content.as_slice()) {
                    Some(payload) => Ok(payload),
                    None => Err(JoseError::DecryptionFailed),
                }
            } else {
                Ok(content)
            }
        },
    }
}

} // verus!
