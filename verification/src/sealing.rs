use crate::alg::{
    content_key, derived_as, drawn, key_unwrapped, key_view, key_wrapped, key_wrapped_for,
    lemma_pairs_recover, pairs, recovered_by_pairs, sealed_for, slice_view, JweEncrypter, Keyed,
};
use crate::base64url::{base64url_chars, base64url_len, base64url_text, encode, encode_text};
use crate::compact::{
    append, compact_text, join, lemma_compact_text_valid, lemma_segments_of_compact_text,
};
use crate::content::{content_sealed, JweContentEncryption};
use crate::crypto::MAX_INPUT_LEN;
use crate::deflate::{deflate, deflated};
use crate::error::JoseError;
use crate::header::{
    claims_ok, claims_plain, claims_text, share_name, with_claim, Claims, JweHeader,
};
use crate::json::{
    items_view, json_plain, json_text, lookup, lookup_text, members_view, plain_depth, Json,
    JsonValue,
};
use crate::json_form::{
    full_aad, json_message_parsed, json_opened, recipient_opened, recipient_sealed, Members,
    SealedRecipient,
};
use crate::message::{
    choose_compression, choose_encryption, chosen_compression, chosen_encryption, compact_opened,
    compact_parsed, content_recovered, criticals_accepted,
};
use crate::round_trip::{
    decodes_back, decodes_back_if_some, lemma_flattened_sealed, lemma_general_sealed,
    recipient_entries_of, recipients_plain, recipients_read,
};
use vstd::prelude::*;
use vstd::utf8::{encode_utf8, valid_utf8};

verus! {

/// The header that is sent: what wrapping the key left, with the encrypter's
/// key identifier where the caller's header has none, and with the
/// encrypter's algorithm.
pub open spec fn header_sealed(wrapped: Claims, header: Claims, holder: Keyed) -> Claims {
    let identified = match holder.key_id {
        Some(id) => if lookup(header, "kid"@) is None {
            with_claim(wrapped, "kid"@, Json::String(id))
        } else {
            wrapped
        },
        None => wrapped,
    };
    with_claim(identified, "alg"@, Json::String(holder.algorithm.spec_name()))
}

/// The content that is encrypted: the payload, deflated where the header
/// asks for it.
pub open spec fn payload_packed(zip: bool, payload: Seq<u8>) -> Option<Seq<u8>> {
    if zip {
        deflated(payload)
    } else {
        Some(payload)
    }
}

/// The encrypted key as it is written: nothing where there is none.
pub open spec fn key_segment(encrypted_key: Option<Seq<u8>>) -> Seq<u8> {
    match encrypted_key {
        Some(k) => k,
        None => Seq::empty(),
    }
}

/// The compact text of a message whose header, keys and IV are given. The
/// associated data is the header's base64url text.
pub open spec fn compact_sealed(
    out: Claims,
    enc: JweContentEncryption,
    zip: bool,
    cek: Seq<u8>,
    encrypted_key: Option<Seq<u8>>,
    iv: Seq<u8>,
    payload: Seq<u8>,
) -> Result<Seq<u8>, JoseError> {
    match (claims_text(out), payload_packed(zip, payload)) {
        (Some(json), Some(content)) => {
            let aad = base64url_text(json);
            if aad.len() > MAX_INPUT_LEN || content.len() + 16 > MAX_INPUT_LEN {
                Err(JoseError::MalformedInput)
            } else {
                match content_sealed(enc, cek, iv, aad, content) {
                    Some((ciphertext, tag)) => Ok(
                        compact_text(
                            aad,
                            base64url_text(key_segment(encrypted_key)),
                            base64url_text(iv),
                            base64url_text(ciphertext),
                            base64url_text(tag),
                        ),
                    ),
                    None => Err(JoseError::KeyMismatch),
                }
            }
        },
        _ => Err(JoseError::MalformedInput),
    }
}

/// The header that is sent for a caller's header, once the key is wrapped.
pub open spec fn compact_header(header: Claims, holder: Keyed, seed: Seq<u8>, nonce: Seq<u8>) -> Result<
    Claims,
    JoseError,
> {
    match chosen_encryption(header) {
        Err(e) => Err(e),
        Ok(enc) => match content_key(holder, enc, seed, nonce, header) {
            Err(e) => Err(e),
            Ok(cek) => match key_wrapped(holder, cek, nonce, header) {
                Err(e) => Err(e),
                Ok((_, wrapped)) => Ok(header_sealed(wrapped, header, holder)),
            },
        },
    }
}

/// The compact text of a payload under a header and an encrypter, with the
/// random bytes given: `seed` for the content-encryption key, `nonce` for the
/// key wrapping, `iv` for the content.
pub open spec fn compact_serialized(
    payload: Seq<u8>,
    header: Claims,
    holder: Keyed,
    seed: Seq<u8>,
    nonce: Seq<u8>,
    iv: Seq<u8>,
) -> Result<Seq<u8>, JoseError> {
    match chosen_encryption(header) {
        Err(e) => Err(e),
        Ok(enc) => match chosen_compression(header) {
            Err(e) => Err(e),
            Ok(zip) => match content_key(holder, enc, seed, nonce, header) {
                Err(e) => Err(e),
                Ok(cek) => match key_wrapped(holder, cek, nonce, header) {
                    Err(e) => Err(e),
                    Ok((encrypted_key, wrapped)) => compact_sealed(
                        header_sealed(wrapped, header, holder),
                        enc,
                        zip,
                        cek,
                        encrypted_key,
                        iv,
                        payload,
                    ),
                },
            },
        },
    }
}

/// A decrypter that goes with an encrypter: it pairs with it, having the
/// same key or the private key to which the encrypter's public key belongs,
/// and has no key identifier or the one that the header carries.
pub open spec fn goes_with(decrypter: Keyed, encrypter: Keyed, sent: Claims) -> bool {
    &&& pairs(decrypter, encrypter)
    &&& decrypter.key_id is Some ==> lookup_text(sent, "kid"@) == decrypter.key_id
}

/// A decrypter that goes with the encrypter opens the text to the payload
/// and to the header that was sent, where that header is plain and calls
/// nothing critical that is not accepted.
pub open spec fn opens_back(
    text: Seq<u8>,
    payload: Seq<u8>,
    sent: Claims,
    encrypter: Keyed,
    acceptable: Seq<Seq<char>>,
) -> bool {
    forall|decrypter: Keyed|
        claims_plain(sent) && criticals_accepted(sent, acceptable) && #[trigger] goes_with(
            decrypter,
            encrypter,
            sent,
        ) ==> compact_opened(text, decrypter, acceptable) == Ok::<(Seq<u8>, Claims), JoseError>(
            (payload, sent),
        )
}

/// The random bytes are what the algorithms draw: a content-encryption key
/// unless the key is used directly, what the key wrapping takes for this
/// key, and the IV of the content encryption.
pub open spec fn drawn_for(
    enc: JweContentEncryption,
    holder: Keyed,
    seed: Seq<u8>,
    nonce: Seq<u8>,
    iv: Seq<u8>,
) -> bool {
    &&& holder.algorithm.spec_derives_key() || seed.len() == enc.spec_key_len()
    &&& drawn(holder, seed, nonce)
    &&& iv.len() == enc.spec_iv_len()
}

/// What holds of the compact text written for a payload, whatever random
/// bytes were drawn. A header without a content encryption that is known, or
/// with a compression that is not, is refused before anything is drawn. Else
/// the result is the one that some random bytes of the right lengths give,
/// unless the random source failed; and a text that was written opens back.
pub open spec fn compact_written(
    payload: Seq<u8>,
    header: Claims,
    holder: Keyed,
    acceptable: Seq<Seq<char>>,
    r: Result<Seq<u8>, JoseError>,
) -> bool {
    match (chosen_encryption(header), chosen_compression(header)) {
        (Err(e), _) => r == Err::<Seq<u8>, JoseError>(e),
        (Ok(_), Err(e)) => r == Err::<Seq<u8>, JoseError>(e),
        (Ok(enc), Ok(_)) => r == Err::<Seq<u8>, JoseError>(JoseError::RandomSourceFailed) || (
        !holder.algorithm.shared_key() && r == Err::<Seq<u8>, JoseError>(JoseError::KeyMismatch))
            || exists|seed: Seq<u8>, nonce: Seq<u8>, iv: Seq<u8>|
            {
                &&& drawn_for(enc, holder, seed, nonce, iv)
                &&& #[trigger] compact_serialized(payload, header, holder, seed, nonce, iv) == r
                &&& r matches Ok(text) ==> (compact_header(header, holder, seed, nonce) matches Ok(
                    sent,
                ) && opens_back(text, payload, sent, holder, acceptable))
            },
    }
}

/// The claims of a header that may be absent.
pub open spec fn header_view(h: Option<&JweHeader>) -> Claims {
    match h {
        Some(h) => h@,
        None => Seq::empty(),
    }
}

/// The claims that hold for a recipient: the protected, the shared and its
/// own. No name may be a claim of two of them.
pub open spec fn headers_merged(protected: Claims, unprotected: Claims, own: Claims) -> Result<
    Claims,
    JoseError,
> {
    if share_name(protected, unprotected) || share_name(protected + unprotected, own) {
        Err(JoseError::HeaderConflict)
    } else {
        Ok(protected + unprotected + own)
    }
}

/// A member of a JSON object that is written only where there is a value.
pub open spec fn optional_member(name: Seq<char>, value: Option<Json>) -> Members {
    match value {
        Some(v) => seq![(name, v)],
        None => Seq::empty(),
    }
}

/// The JSON object that holds a header that may be absent.
pub open spec fn header_json(h: Option<&JweHeader>) -> Option<Json> {
    match h {
        Some(h) => Some(Json::Object(h@)),
        None => None,
    }
}

/// The JSON string that holds bytes, which may be absent, as base64url.
pub open spec fn bytes_json(b: Option<Seq<u8>>) -> Option<Json> {
    match b {
        Some(b) => Some(Json::String(base64url_chars(b))),
        None => None,
    }
}

/// The members of a flattened message, in the order in which they are
/// written.
pub open spec fn flattened_members(
    protected_text: Seq<char>,
    unprotected: Option<Json>,
    own: Option<Json>,
    encrypted_key: Option<Seq<u8>>,
    aad: Option<Seq<u8>>,
    iv: Seq<u8>,
    ciphertext: Seq<u8>,
    tag: Seq<u8>,
) -> Members {
    seq![("protected"@, Json::String(protected_text))] + optional_member(
        "unprotected"@,
        unprotected,
    ) + optional_member("header"@, own) + optional_member(
        "encrypted_key"@,
        bytes_json(encrypted_key),
    ) + optional_member("aad"@, bytes_json(aad)) + seq![
        ("iv"@, Json::String(base64url_chars(iv))),
        ("ciphertext"@, Json::String(base64url_chars(ciphertext))),
        ("tag"@, Json::String(base64url_chars(tag))),
    ]
}

/// The caller's associated data as it is bound: in base64url.
pub open spec fn aad_text(aad: Option<Seq<u8>>) -> Option<Seq<u8>> {
    match aad {
        Some(a) => Some(base64url_text(a)),
        None => None,
    }
}

/// The flattened JSON text of a message whose protected header, keys and IV
/// are given. The associated data is the protected header's base64url text,
/// with the caller's associated data behind it where there is any.
pub open spec fn flattened_sealed(
    sent: Claims,
    unprotected: Option<Json>,
    own: Option<Json>,
    aad: Option<Seq<u8>>,
    enc: JweContentEncryption,
    zip: bool,
    cek: Seq<u8>,
    encrypted_key: Option<Seq<u8>>,
    iv: Seq<u8>,
    payload: Seq<u8>,
) -> Result<Seq<u8>, JoseError> {
    match (claims_text(sent), payload_packed(zip, payload)) {
        (Some(json), Some(content)) => {
            let bound = full_aad(base64url_text(json), aad_text(aad));
            if bound.len() > MAX_INPUT_LEN || content.len() + 16 > MAX_INPUT_LEN {
                Err(JoseError::MalformedInput)
            } else {
                match content_sealed(enc, cek, iv, bound, content) {
                    Some((ciphertext, tag)) => match json_text(
                        Json::Object(
                            flattened_members(
                                base64url_chars(json),
                                unprotected,
                                own,
                                encrypted_key,
                                aad,
                                iv,
                                ciphertext,
                                tag,
                            ),
                        ),
                    ) {
                        Some(text) => Ok(text),
                        None => Err(JoseError::MalformedInput),
                    },
                    None => Err(JoseError::KeyMismatch),
                }
            }
        },
        _ => Err(JoseError::MalformedInput),
    }
}

/// The flattened JSON text of a payload under three headers and an
/// encrypter, with the random bytes given. The algorithm's parameters, the
/// key identifier and the algorithm go into the protected header; what is
/// then protected may share no name with the other two headers.
pub open spec fn flattened_serialized(
    payload: Seq<u8>,
    protected: Option<&JweHeader>,
    unprotected: Option<&JweHeader>,
    own: Option<&JweHeader>,
    aad: Option<Seq<u8>>,
    holder: Keyed,
    seed: Seq<u8>,
    nonce: Seq<u8>,
    iv: Seq<u8>,
) -> Result<Seq<u8>, JoseError> {
    match headers_merged(header_view(protected), header_view(unprotected), header_view(own)) {
        Err(e) => Err(e),
        Ok(merged) => match chosen_encryption(merged) {
            Err(e) => Err(e),
            Ok(enc) => match chosen_compression(merged) {
                Err(e) => Err(e),
                Ok(zip) => match content_key(holder, enc, seed, nonce, merged) {
                    Err(e) => Err(e),
                    Ok(cek) => match key_wrapped_for(
                        holder,
                        cek,
                        nonce,
                        merged,
                        header_view(protected),
                    ) {
                        Err(e) => Err(e),
                        Ok((encrypted_key, wrapped)) => {
                            let sent = header_sealed(wrapped, merged, holder);
                            if share_name(sent, header_view(unprotected)) || share_name(
                                sent,
                                header_view(own),
                            ) {
                                Err(JoseError::HeaderConflict)
                            } else {
                                flattened_sealed(
                                    sent,
                                    header_json(unprotected),
                                    header_json(own),
                                    aad,
                                    enc,
                                    zip,
                                    cek,
                                    encrypted_key,
                                    iv,
                                    payload,
                                )
                            }
                        },
                    },
                },
            },
        },
    }
}

/// What holds of the flattened JSON text written for a payload, whatever
/// random bytes were drawn. Headers that share a name, or that lack a content
/// encryption that is known, or name a compression that is not, are refused
/// before anything is drawn. Else the result is the one that some random
/// bytes of the right lengths give, unless the random source failed.
pub open spec fn flattened_written(
    payload: Seq<u8>,
    protected: Option<&JweHeader>,
    unprotected: Option<&JweHeader>,
    own: Option<&JweHeader>,
    aad: Option<Seq<u8>>,
    holder: Keyed,
    acceptable: Seq<Seq<char>>,
    r: Result<Seq<u8>, JoseError>,
) -> bool {
    match headers_merged(header_view(protected), header_view(unprotected), header_view(own)) {
        Err(e) => r == Err::<Seq<u8>, JoseError>(e),
        Ok(merged) => match (chosen_encryption(merged), chosen_compression(merged)) {
            (Err(e), _) => r == Err::<Seq<u8>, JoseError>(e),
            (Ok(_), Err(e)) => r == Err::<Seq<u8>, JoseError>(e),
            (Ok(enc), Ok(_)) => r == Err::<Seq<u8>, JoseError>(JoseError::RandomSourceFailed) || (
            !holder.algorithm.shared_key() && r == Err::<Seq<u8>, JoseError>(
                JoseError::KeyMismatch,
            )) || exists|seed: Seq<u8>, nonce: Seq<u8>, iv: Seq<u8>|
                {
                    &&& drawn_for(enc, holder, seed, nonce, iv)
                    &&& #[trigger] flattened_serialized(
                        payload,
                        protected,
                        unprotected,
                        own,
                        aad,
                        holder,
                        seed,
                        nonce,
                        iv,
                    ) == r
                    &&& r matches Ok(text) ==> (flattened_header(
                        protected,
                        unprotected,
                        own,
                        holder,
                        seed,
                        nonce,
                    ) matches Ok(sent) && opens_back_json(
                        text,
                        payload,
                        sent,
                        unprotected,
                        own,
                        holder,
                        acceptable,
                    ))
                },
        },
    }
}

/// Whom a message is for: the header of its own that a recipient may have,
/// and the encrypter that wraps the key for it.
pub type Addressee<'a> = (Option<&'a JweHeader>, &'a JweEncrypter);

/// What is sent to one recipient: its own header, with the algorithm's
/// parameters, the key identifier and the algorithm in it, and its encrypted
/// key. The recipient's claims may share no name with the protected and
/// shared ones, before or after, and must name the content encryption and
/// the compression of the message.
pub open spec fn recipient_sent(
    shared: Claims,
    own: Claims,
    holder: Keyed,
    enc: JweContentEncryption,
    zip: bool,
    cek: Seq<u8>,
    nonce: Seq<u8>,
) -> Result<SealedRecipient, JoseError> {
    if share_name(shared, own) {
        Err(JoseError::HeaderConflict)
    } else if chosen_encryption(shared + own) != Ok::<JweContentEncryption, JoseError>(enc)
        || chosen_compression(shared + own) != Ok::<bool, JoseError>(zip) {
        Err(JoseError::HeaderConflict)
    } else {
        match key_wrapped_for(holder, cek, nonce, shared + own, own) {
            Err(e) => Err(e),
            Ok((encrypted_key, wrapped)) => {
                let sent = header_sealed(wrapped, shared + own, holder);
                if share_name(shared, sent) {
                    Err(JoseError::HeaderConflict)
                } else {
                    Ok((sent, encrypted_key))
                }
            },
        }
    }
}

/// What is sent to recipient `i`.
pub open spec fn addressee_sent(
    shared: Claims,
    recipients: Seq<Addressee>,
    nonces: Seq<Seq<u8>>,
    i: int,
    enc: JweContentEncryption,
    zip: bool,
    cek: Seq<u8>,
) -> Result<SealedRecipient, JoseError> {
    recipient_sent(shared, header_view(recipients[i].0), recipients[i].1@, enc, zip, cek, nonces[i])
}

/// Something can be sent to each of the first `n` recipients.
pub open spec fn all_sent_until(
    shared: Claims,
    recipients: Seq<Addressee>,
    nonces: Seq<Seq<u8>>,
    n: int,
    enc: JweContentEncryption,
    zip: bool,
    cek: Seq<u8>,
) -> bool {
    forall|i: int|
        0 <= i < n ==> (#[trigger] addressee_sent(shared, recipients, nonces, i, enc, zip, cek))
            is Ok
}

/// What is sent to the recipients, in their order; or what is wrong with the
/// first of them to whom nothing can be sent.
pub open spec fn recipients_sent(
    shared: Claims,
    recipients: Seq<Addressee>,
    nonces: Seq<Seq<u8>>,
    enc: JweContentEncryption,
    zip: bool,
    cek: Seq<u8>,
) -> Result<Seq<SealedRecipient>, JoseError> {
    let n = recipients.len() as int;
    if all_sent_until(shared, recipients, nonces, n, enc, zip, cek) {
        Ok(
            Seq::new(
                recipients.len(),
                |i: int| addressee_sent(shared, recipients, nonces, i, enc, zip, cek)->Ok_0,
            ),
        )
    } else {
        let k = choose|k: int|
            0 <= k < n && (#[trigger] addressee_sent(shared, recipients, nonces, k, enc, zip, cek))
                is Err && all_sent_until(shared, recipients, nonces, k, enc, zip, cek);
        Err(addressee_sent(shared, recipients, nonces, k, enc, zip, cek)->Err_0)
    }
}

/// Some recipient's algorithm derives the content-encryption key.
pub open spec fn some_derives(recipients: Seq<Addressee>) -> bool {
    exists|i: int|
        0 <= i < recipients.len() && (#[trigger] recipients[i]).1@.algorithm.spec_derives_key()
}

/// The entry of a recipient in the list of recipients.
pub open spec fn recipient_entry(sent: SealedRecipient) -> Json {
    Json::Object(
        seq![("header"@, Json::Object(sent.0))] + optional_member(
            "encrypted_key"@,
            bytes_json(sent.1),
        ),
    )
}

/// The members of a message in general JSON form, in the order in which they
/// are written.
pub open spec fn general_members(
    protected_text: Option<Seq<char>>,
    unprotected: Option<Json>,
    sent: Seq<SealedRecipient>,
    aad: Option<Seq<u8>>,
    iv: Seq<u8>,
    ciphertext: Seq<u8>,
    tag: Seq<u8>,
) -> Members {
    optional_member(
        "protected"@,
        match protected_text {
            Some(t) => Some(Json::String(t)),
            None => None,
        },
    ) + optional_member("unprotected"@, unprotected) + seq![
        ("recipients"@, Json::Array(Seq::new(sent.len(), |i: int| recipient_entry(sent[i])))),
    ] + optional_member("aad"@, bytes_json(aad)) + seq![
        ("iv"@, Json::String(base64url_chars(iv))),
        ("ciphertext"@, Json::String(base64url_chars(ciphertext))),
        ("tag"@, Json::String(base64url_chars(tag))),
    ]
}

/// The JSON text of the protected header, where there is one.
pub open spec fn protected_json(protected: Option<&JweHeader>) -> Option<Option<Seq<u8>>> {
    match protected {
        None => Some(None),
        Some(h) => match claims_text(h@) {
            Some(json) => Some(Some(json)),
            None => None,
        },
    }
}

/// The base64url text of the protected header; nothing where there is none.
pub open spec fn protected_bound(json: Option<Seq<u8>>) -> Seq<u8> {
    match json {
        Some(json) => base64url_text(json),
        None => Seq::empty(),
    }
}

/// The base64url text of the protected header as characters.
pub open spec fn protected_chars(json: Option<Seq<u8>>) -> Option<Seq<char>> {
    match json {
        Some(json) => Some(base64url_chars(json)),
        None => None,
    }
}

/// The general JSON text of a message whose recipients' headers and keys,
/// and whose IV, are given.
pub open spec fn general_sealed(
    protected: Option<&JweHeader>,
    unprotected: Option<&JweHeader>,
    sent: Seq<SealedRecipient>,
    aad: Option<Seq<u8>>,
    enc: JweContentEncryption,
    zip: bool,
    cek: Seq<u8>,
    iv: Seq<u8>,
    payload: Seq<u8>,
) -> Result<Seq<u8>, JoseError> {
    match (protected_json(protected), payload_packed(zip, payload)) {
        (Some(json), Some(content)) => {
            let bound = full_aad(protected_bound(json), aad_text(aad));
            if bound.len() > MAX_INPUT_LEN || content.len() + 16 > MAX_INPUT_LEN {
                Err(JoseError::MalformedInput)
            } else {
                match content_sealed(enc, cek, iv, bound, content) {
                    Some((ciphertext, tag)) => match json_text(
                        Json::Object(
                            general_members(
                                protected_chars(json),
                                header_json(unprotected),
                                sent,
                                aad,
                                iv,
                                ciphertext,
                                tag,
                            ),
                        ),
                    ) {
                        Some(text) => Ok(text),
                        None => Err(JoseError::MalformedInput),
                    },
                    None => Err(JoseError::KeyMismatch),
                }
            }
        },
        _ => Err(JoseError::MalformedInput),
    }
}

/// The general JSON text of a payload for several recipients, with the
/// random bytes given: `seed` for the content-encryption key, one of `nonces`
/// for each recipient's key wrapping, `iv` for the content. All recipients
/// get the same content-encryption key, so an algorithm that derives it
/// serves a message with one recipient only. The first recipient's claims
/// name the content encryption and the compression, and the others' must
/// name the same.
pub open spec fn general_serialized(
    payload: Seq<u8>,
    protected: Option<&JweHeader>,
    unprotected: Option<&JweHeader>,
    recipients: Seq<Addressee>,
    aad: Option<Seq<u8>>,
    seed: Seq<u8>,
    nonces: Seq<Seq<u8>>,
    iv: Seq<u8>,
) -> Result<Seq<u8>, JoseError> {
    let shared = header_view(protected) + header_view(unprotected);
    if recipients.len() == 0 || nonces.len() != recipients.len() || (recipients.len() > 1
        && some_derives(recipients)) {
        Err(JoseError::NoApplicableAlgorithm)
    } else {
        match headers_merged(
            header_view(protected),
            header_view(unprotected),
            header_view(recipients[0].0),
        ) {
            Err(e) => Err(e),
            Ok(first) => match chosen_encryption(first) {
                Err(e) => Err(e),
                Ok(enc) => match chosen_compression(first) {
                    Err(e) => Err(e),
                    Ok(zip) => match content_key(recipients[0].1@, enc, seed, nonces[0], first) {
                        Err(e) => Err(e),
                        Ok(cek) => match recipients_sent(shared, recipients, nonces, enc, zip, cek) {
                            Err(e) => Err(e),
                            Ok(sent) => general_sealed(
                                protected,
                                unprotected,
                                sent,
                                aad,
                                enc,
                                zip,
                                cek,
                                iv,
                                payload,
                            ),
                        },
                    },
                },
            },
        }
    }
}

/// What wrapping a key for a recipient gives, every decrypter that pairs
/// with the recipient's encrypter unwraps, where the key is the one that the
/// algorithm derives, if it derives one, and what was drawn serves the
/// holder of the private key.
pub open spec fn unwraps_back(
    holder: Keyed,
    cek: Seq<u8>,
    nonce: Seq<u8>,
    asked: Claims,
    own: Claims,
) -> bool {
    derived_as(holder, cek, nonce, asked) && sealed_for(holder, cek, nonce) ==> (key_wrapped_for(
        holder,
        cek,
        nonce,
        asked,
        own,
    ) matches Ok((encrypted_key, wrapped)) && recovered_by_pairs(
        holder,
        encrypted_key,
        asked,
        wrapped,
        cek,
    ))
}

/// What is sent to the recipients of a message, once the keys are wrapped.
pub open spec fn general_sent(
    protected: Option<&JweHeader>,
    unprotected: Option<&JweHeader>,
    recipients: Seq<Addressee>,
    seed: Seq<u8>,
    nonces: Seq<Seq<u8>>,
) -> Result<Seq<SealedRecipient>, JoseError> {
    let shared = header_view(protected) + header_view(unprotected);
    if recipients.len() == 0 || nonces.len() != recipients.len() || (recipients.len() > 1
        && some_derives(recipients)) {
        Err(JoseError::NoApplicableAlgorithm)
    } else {
        match headers_merged(
            header_view(protected),
            header_view(unprotected),
            header_view(recipients[0].0),
        ) {
            Err(e) => Err(e),
            Ok(first) => match chosen_encryption(first) {
                Err(e) => Err(e),
                Ok(enc) => match chosen_compression(first) {
                    Err(e) => Err(e),
                    Ok(zip) => match content_key(recipients[0].1@, enc, seed, nonces[0], first) {
                        Err(e) => Err(e),
                        Ok(cek) => recipients_sent(shared, recipients, nonces, enc, zip, cek),
                    },
                },
            },
        }
    }
}

/// Each recipient's decrypter opens its part of the text in general JSON
/// form to the payload: a decrypter that goes with the encrypter of recipient
/// `i` opens recipient `i` of the message that the text holds, where the
/// headers are plain and call nothing critical that is not accepted.
pub open spec fn general_opens_back(
    text: Seq<u8>,
    payload: Seq<u8>,
    protected: Option<&JweHeader>,
    unprotected: Option<&JweHeader>,
    recipients: Seq<Addressee>,
    seed: Seq<u8>,
    nonces: Seq<Seq<u8>>,
    acceptable: Seq<Seq<char>>,
) -> bool {
    let shared = header_view(protected) + header_view(unprotected);
    general_sent(protected, unprotected, recipients, seed, nonces) matches Ok(sent) && forall|
        i: int,
        decrypter: Keyed,
    |
        0 <= i < sent.len() && general_premises(protected, unprotected, sent) && criticals_accepted(
            shared + sent[i].0,
            acceptable,
        ) && sealed_for(recipients[i].1@, seed, nonces[i]) && #[trigger] goes_with(
            decrypter,
            recipients[i].1@,
            shared + sent[i].0,
        ) ==> (json_message_parsed(text) matches Ok(m) && m.recipients == recipients_read(
            shared,
            sent,
        ) && recipient_opened(m, i, decrypter, acceptable) == Ok::<Seq<u8>, JoseError>(payload))
}

/// The bytes drawn for the recipients' key wrapping are what their algorithms
/// draw for the key.
pub open spec fn all_drawn(recipients: Seq<Addressee>, seed: Seq<u8>, nonces: Seq<Seq<u8>>) -> bool {
    &&& nonces.len() == recipients.len()
    &&& forall|i: int|
        0 <= i < recipients.len() ==> drawn((#[trigger] recipients[i]).1@, seed, nonces[i])
}

/// Drawing can refuse some recipient's key: one of a public-key algorithm,
/// or a password's with a salt that is too long.
pub open spec fn draw_refuses(recipients: Seq<Addressee>) -> bool {
    exists|i: int|
        0 <= i < recipients.len() && (!(#[trigger] recipients[i]).1@.algorithm.shared_key() || (
        recipients[i].1@.algorithm is Pbes2HmacAeskw && recipients[i].1@.salt_len
            > crate::alg::MAX_KEY_LEN))
}

/// What holds of the general JSON text written for a payload, whatever
/// random bytes were drawn. A message for nobody, or for several recipients
/// one of whom derives the key, is refused, and so are headers that share a
/// name or do not name a content encryption and a compression that are
/// known, before anything is drawn. Else the result is the one that some
/// random bytes of the right lengths give, unless the random source failed
/// or drawing refused a key.
pub open spec fn general_written(
    payload: Seq<u8>,
    protected: Option<&JweHeader>,
    unprotected: Option<&JweHeader>,
    recipients: Seq<Addressee>,
    aad: Option<Seq<u8>>,
    acceptable: Seq<Seq<char>>,
    r: Result<Seq<u8>, JoseError>,
) -> bool {
    if recipients.len() == 0 || (recipients.len() > 1 && some_derives(recipients)) {
        r == Err::<Seq<u8>, JoseError>(JoseError::NoApplicableAlgorithm)
    } else {
        match headers_merged(
            header_view(protected),
            header_view(unprotected),
            header_view(recipients[0].0),
        ) {
            Err(e) => r == Err::<Seq<u8>, JoseError>(e),
            Ok(first) => match (chosen_encryption(first), chosen_compression(first)) {
                (Err(e), _) => r == Err::<Seq<u8>, JoseError>(e),
                (Ok(_), Err(e)) => r == Err::<Seq<u8>, JoseError>(e),
                (Ok(enc), Ok(_)) => r == Err::<Seq<u8>, JoseError>(JoseError::RandomSourceFailed)
                    || (draw_refuses(recipients) && r == Err::<Seq<u8>, JoseError>(
                    JoseError::KeyMismatch,
                )) || exists|seed: Seq<u8>, nonces: Seq<Seq<u8>>, iv: Seq<u8>|
                    {
                        &&& some_derives(recipients) || seed.len() == enc.spec_key_len()
                        &&& all_drawn(recipients, seed, nonces)
                        &&& iv.len() == enc.spec_iv_len()
                        &&& #[trigger] general_serialized(
                            payload,
                            protected,
                            unprotected,
                            recipients,
                            aad,
                            seed,
                            nonces,
                            iv,
                        ) == r
                        &&& r matches Ok(text) ==> general_opens_back(
                            text,
                            payload,
                            protected,
                            unprotected,
                            recipients,
                            seed,
                            nonces,
                            acceptable,
                        )
                    },
            },
        }
    }
}

/// A header that may be absent is plain enough to stand inside a message.
pub open spec fn nested_plain(h: Option<&JweHeader>) -> bool {
    h matches Some(x) ==> json_plain(Json::Object(x@), (plain_depth() - 1) as nat)
}

/// The protected header that is sent for three headers, once the key is
/// wrapped.
pub open spec fn flattened_header(
    protected: Option<&JweHeader>,
    unprotected: Option<&JweHeader>,
    own: Option<&JweHeader>,
    holder: Keyed,
    seed: Seq<u8>,
    nonce: Seq<u8>,
) -> Result<Claims, JoseError> {
    match headers_merged(header_view(protected), header_view(unprotected), header_view(own)) {
        Err(e) => Err(e),
        Ok(merged) => match chosen_encryption(merged) {
            Err(e) => Err(e),
            Ok(enc) => match content_key(holder, enc, seed, nonce, merged) {
                Err(e) => Err(e),
                Ok(cek) => match key_wrapped_for(
                        holder,
                        cek,
                        nonce,
                        merged,
                        header_view(protected),
                    ) {
                    Err(e) => Err(e),
                    Ok((_, wrapped)) => Ok(header_sealed(wrapped, merged, holder)),
                },
            },
        },
    }
}

/// A decrypter that goes with the encrypter opens the text in JSON form to
/// the payload and to the claims that hold for the recipient, where the
/// headers are plain and call nothing critical that is not accepted.
pub open spec fn opens_back_json(
    text: Seq<u8>,
    payload: Seq<u8>,
    sent: Claims,
    unprotected: Option<&JweHeader>,
    own: Option<&JweHeader>,
    encrypter: Keyed,
    acceptable: Seq<Seq<char>>,
) -> bool {
    forall|decrypter: Keyed|
        claims_plain(sent) && nested_plain(unprotected) && nested_plain(own) && criticals_accepted(
            sent + header_view(unprotected) + header_view(own),
            acceptable,
        ) && #[trigger] goes_with(
            decrypter,
            encrypter,
            sent + header_view(unprotected) + header_view(own),
        ) ==> json_opened(text, decrypter, acceptable) == Ok::<(Seq<u8>, Claims), JoseError>(
            (payload, sent + header_view(unprotected) + header_view(own)),
        )
}

/// The view of a text or its refusal.
pub open spec fn text_result_view(r: Result<String, JoseError>) -> Result<Seq<u8>, JoseError> {
    match r {
        Ok(s) => Ok(encode_utf8(s@)),
        Err(e) => Err(e),
    }
}

/// Seals a payload under a header that is ready to be sent, and writes the
/// compact text. Reading the text gives the header and the parts back, and
/// the content opens to the payload under the same key.
#[verifier::rlimit(40)]
pub fn seal_compact(
    out: &JweHeader,
    enc: JweContentEncryption,
    zip: bool,
    cek: &[u8],
    encrypted_key: Option<&[u8]>,
    iv: &[u8],
    payload: &[u8],
) -> (r: Result<Vec<u8>, JoseError>)
    requires
        out.wf(),
    ensures
        key_view(r) == compact_sealed(
            out@,
            enc,
            zip,
            cek@,
            slice_view(encrypted_key),
            iv@,
            payload@,
        ),
        r matches Ok(text) ==> valid_utf8(text@),
        r matches Ok(text) ==> (claims_plain(out@) && (encrypted_key matches Some(k) ==> k@.len()
            > 0) ==> (compact_parsed(text@) matches Ok(m) && m.claims == out@ && m.encrypted_key
            == slice_view(encrypted_key) && content_recovered(m, enc, zip, cek@) == Ok::<
            Seq<u8>,
            JoseError,
        >(payload@))),
{
    let json = match out.to_bytes() {
        Some(json) => json,
        None => {
            return Err(JoseError::MalformedInput);
        },
    };
    let aad = encode(json.as_slice());
    let packed: Vec<u8>;
    let content: &[u8] = if zip {
        match deflate(payload) {
            Some(c) => {
                packed = c;
                packed.as_slice()
            },
            None => {
                return Err(JoseError::MalformedInput);
            },
        }
    } else {
        payload
    };
    if aad.len() > MAX_INPUT_LEN || content.len() > MAX_INPUT_LEN - 16 {
        return Err(JoseError::MalformedInput);
    }
    let (ciphertext, tag) = match enc.encrypt(cek, iv, aad.as_slice(), content) {
        Some(sealed) => sealed,
        None => {
            return Err(JoseError::KeyMismatch);
        },
    };
    let none: Vec<u8> = Vec::new();
    let key: &[u8] = match encrypted_key {
        Some(k) => k,
        None => none.as_slice(),
    };
    assert(key@ =~= key_segment(slice_view(encrypted_key)));
    let key_text = encode(key);
    let iv_text = encode(iv);
    let ciphertext_text = encode(ciphertext.as_slice());
    let tag_text = encode(tag.as_slice());
    let text = join(
        aad.as_slice(),
        key_text.as_slice(),
        iv_text.as_slice(),
        ciphertext_text.as_slice(),
        tag_text.as_slice(),
    );
    proof {
        lemma_compact_text_valid(aad@, key_text@, iv_text@, ciphertext_text@, tag_text@);
        lemma_segments_of_compact_text(aad@, key_text@, iv_text@, ciphertext_text@, tag_text@);
        if claims_plain(out@) && (encrypted_key matches Some(k) ==> k@.len() > 0) {
            assert(key_text@.len() == base64url_len(key@.len()));
            if encrypted_key is Some {
                assert(key_text@.len() > 0);
            }
        }
    }
    Ok(text)
}

/// What a header that may be absent holds, as a header.
pub fn header_or_empty(h: Option<&JweHeader>) -> (r: JweHeader)
    requires
        h matches Some(x) ==> x.wf(),
    ensures
        r@ == header_view(h),
        r.wf(),
{
    match h {
        Some(h) => h.clone(),
        None => JweHeader::new(),
    }
}

/// The claims that hold for a recipient: the protected, the shared and its
/// own.
pub fn merge_headers(protected: &JweHeader, unprotected: &JweHeader, own: &JweHeader) -> (r: Result<
    JweHeader,
    JoseError,
>)
    requires
        protected.wf(),
        unprotected.wf(),
        own.wf(),
    ensures
        crate::json_form::claims_view(r) == headers_merged(protected@, unprotected@, own@),
        r matches Ok(h) ==> h.wf(),
{
    let shared = match protected.merge(unprotected) {
        Ok(h) => h,
        Err(e) => {
            return Err(e);
        },
    };
    shared.merge(own)
}

/// Adds a member that holds bytes as base64url text.
fn push_bytes(members: &mut Vec<(String, JsonValue)>, name: &str, bytes: &[u8])
    ensures
        members_view(final(members)@) == members_view(old(members)@).push(
            (name@, Json::String(base64url_chars(bytes@))),
        ),
        decodes_back(bytes@),
{
    members.push((name.to_owned(), JsonValue::String(encode_text(bytes))));
    assert(members_view(members@) =~= members_view(old(members)@).push(
        (name@, Json::String(base64url_chars(bytes@))),
    ));
}

/// Adds a member that holds a header, where there is one.
fn push_header(members: &mut Vec<(String, JsonValue)>, name: &str, header: Option<&JweHeader>)
    ensures
        members_view(final(members)@) == members_view(old(members)@) + optional_member(
            name@,
            header_json(header),
        ),
{
    match header {
        Some(h) => {
            members.push((name.to_owned(), h.to_json()));
            assert(members_view(members@) =~= members_view(old(members)@) + optional_member(
                name@,
                header_json(header),
            ));
        },
        None => {
            assert(members_view(members@) =~= members_view(old(members)@) + optional_member(
                name@,
                header_json(header),
            ));
        },
    }
}

/// The members of a flattened message, in the order in which they are
/// written.
#[verifier::rlimit(40)]
fn flattened_object(
    protected_text: String,
    unprotected: Option<&JweHeader>,
    own: Option<&JweHeader>,
    encrypted_key: Option<&[u8]>,
    aad: Option<&[u8]>,
    iv: &[u8],
    ciphertext: &[u8],
    tag: &[u8],
) -> (members: Vec<(String, JsonValue)>)
    ensures
        members_view(members@) == flattened_members(
            protected_text@,
            header_json(unprotected),
            header_json(own),
            slice_view(encrypted_key),
            slice_view(aad),
            iv@,
            ciphertext@,
            tag@,
        ),
        decodes_back_if_some(slice_view(encrypted_key)),
        decodes_back_if_some(slice_view(aad)),
        decodes_back(iv@),
        decodes_back(ciphertext@),
        decodes_back(tag@),
{
    let mut members: Vec<(String, JsonValue)> = Vec::new();
    members.push(("protected".to_owned(), JsonValue::String(protected_text)));
    assert(members_view(members@) =~= seq![("protected"@, Json::String(protected_text@))]);
    push_header(&mut members, "unprotected", unprotected);
    push_header(&mut members, "header", own);
    match encrypted_key {
        Some(k) => {
            push_bytes(&mut members, "encrypted_key", k);
        },
        None => {},
    }
    match aad {
        Some(a) => {
            push_bytes(&mut members, "aad", a);
        },
        None => {},
    }
    push_bytes(&mut members, "iv", iv);
    push_bytes(&mut members, "ciphertext", ciphertext);
    push_bytes(&mut members, "tag", tag);
    assert(members_view(members@) =~= flattened_members(
        protected_text@,
        header_json(unprotected),
        header_json(own),
        slice_view(encrypted_key),
        slice_view(aad),
        iv@,
        ciphertext@,
        tag@,
    ));
    members
}

/// Seals a payload under a protected header that is ready to be sent, and
/// writes the flattened JSON text.
#[verifier::rlimit(40)]
pub fn seal_flattened(
    sent: &JweHeader,
    unprotected: Option<&JweHeader>,
    own: Option<&JweHeader>,
    aad: Option<&[u8]>,
    enc: JweContentEncryption,
    zip: bool,
    cek: &[u8],
    encrypted_key: Option<&[u8]>,
    iv: &[u8],
    payload: &[u8],
) -> (r: Result<Vec<u8>, JoseError>)
    requires
        sent.wf(),
    ensures
        key_view(r) == flattened_sealed(
            sent@,
            header_json(unprotected),
            header_json(own),
            slice_view(aad),
            enc,
            zip,
            cek@,
            slice_view(encrypted_key),
            iv@,
            payload@,
        ),
        r matches Ok(text) ==> valid_utf8(text@),
        r matches Ok(text) ==> (claims_plain(sent@) && nested_plain(unprotected) && nested_plain(
            own,
        ) && (unprotected matches Some(h) ==> h.wf()) && (own matches Some(h) ==> h.wf())
            && !share_name(sent@, header_view(unprotected)) && !share_name(
            sent@ + header_view(unprotected),
            header_view(own),
        ) ==> (json_message_parsed(text@) matches Ok(m) && m.recipients == seq![
            (sent@ + header_view(unprotected) + header_view(own), slice_view(encrypted_key)),
        ] && content_recovered(recipient_sealed(m, 0), enc, zip, cek@) == Ok::<Seq<u8>, JoseError>(
            payload@,
        ))),
{
    let json = match sent.to_bytes() {
        Some(json) => json,
        None => {
            return Err(JoseError::MalformedInput);
        },
    };
    let protected_text = encode_text(json.as_slice());
    let mut bound: Vec<u8> = Vec::new();
    append(&mut bound, protected_text.as_str().as_bytes());
    match aad {
        Some(a) => {
            let text = crate::base64url::encode(a);
            bound.push(0x2e);
            append(&mut bound, text.as_slice());
        },
        None => {},
    }
    assert(bound@ =~= full_aad(base64url_text(json@), aad_text(slice_view(aad))));
    let packed: Vec<u8>;
    let content: &[u8] = if zip {
        match deflate(payload) {
            Some(c) => {
                packed = c;
                packed.as_slice()
            },
            None => {
                return Err(JoseError::MalformedInput);
            },
        }
    } else {
        payload
    };
    if bound.len() > MAX_INPUT_LEN || content.len() > MAX_INPUT_LEN - 16 {
        return Err(JoseError::MalformedInput);
    }
    let (ciphertext, tag) = match enc.encrypt(cek, iv, bound.as_slice(), content) {
        Some(sealed) => sealed,
        None => {
            return Err(JoseError::KeyMismatch);
        },
    };
    let members = flattened_object(
        protected_text,
        unprotected,
        own,
        encrypted_key,
        aad,
        iv,
        ciphertext.as_slice(),
        tag.as_slice(),
    );
    proof {
        crate::json::lemma_object_view(members);
    }
    let ghost written = members_view(members@);
    match JsonValue::Object(members).render() {
        Some(text) => {
            proof {
                lemma_flattened_sealed(
                    text@,
                    written,
                    sent@,
                    json@,
                    unprotected,
                    own,
                    slice_view(encrypted_key),
                    slice_view(aad),
                    iv@,
                    ciphertext@,
                    tag@,
                );
            }
            Ok(text)
        },
        None => Err(JoseError::MalformedInput),
    }
}

/// What makes a message in general JSON form read back as it was written:
/// the headers are plain and in order, and share no names.
pub open spec fn general_premises(
    protected: Option<&JweHeader>,
    unprotected: Option<&JweHeader>,
    sent: Seq<SealedRecipient>,
) -> bool {
    &&& protected matches Some(h) ==> claims_plain(h@)
    &&& nested_plain(unprotected)
    &&& unprotected matches Some(h) ==> h.wf()
    &&& recipients_plain(sent)
    &&& forall|i: int| 0 <= i < sent.len() ==> claims_ok((#[trigger] sent[i]).0)
    &&& !share_name(header_view(protected), header_view(unprotected))
    &&& forall|i: int|
        0 <= i < sent.len() ==> !share_name(
            header_view(protected) + header_view(unprotected),
            (#[trigger] sent[i]).0,
        )
}

/// Every recipient's own header, where it has one, is in order.
pub open spec fn addressees_wf(recipients: Seq<Addressee>) -> bool {
    forall|i: int|
        0 <= i < recipients.len() ==> ((#[trigger] recipients[i]).0 matches Some(h) ==> h.wf())
}

/// Says whether some recipient's algorithm derives the content-encryption
/// key.
pub fn any_derives(recipients: &[Addressee]) -> (r: bool)
    ensures
        r == some_derives(recipients@),
{
    let mut i: usize = 0;
    while i < recipients.len()
        invariant
            i <= recipients@.len(),
            forall|k: int|
                0 <= k < i ==> !(#[trigger] recipients@[k]).1@.algorithm.spec_derives_key(),
        decreases recipients@.len() - i,
    {
        if recipients[i].1.algorithm().derives_key() {
            return true;
        }
        i += 1;
    }
    false
}

/// Prepares what is sent to one recipient: wraps the key for it and writes
/// the algorithm's parameters, the key identifier and the algorithm into its
/// own header.
#[verifier::rlimit(40)]
pub fn send_to(
    shared: &JweHeader,
    own: Option<&JweHeader>,
    encrypter: &JweEncrypter,
    enc: JweContentEncryption,
    zip: bool,
    cek: &[u8],
    nonce: &[u8],
) -> (r: Result<crate::json_form::JweRecipient, JoseError>)
    requires
        shared.wf(),
        own matches Some(h) ==> h.wf(),
    ensures
        crate::json_form::recipient_view(r) == recipient_sent(
            shared@,
            header_view(own),
            encrypter@,
            enc,
            zip,
            cek@,
            nonce@,
        ),
        r matches Ok(x) ==> x.header.wf(),
        r is Ok ==> unwraps_back(
            encrypter@,
            cek@,
            nonce@,
            shared@ + header_view(own),
            header_view(own),
        ),
{
    let mut out = header_or_empty(own);
    let merged = match shared.merge(&out) {
        Ok(h) => h,
        Err(e) => {
            return Err(e);
        },
    };
    match choose_encryption(&merged) {
        Ok(named) => {
            if !same_encryption(named, enc) {
                return Err(JoseError::HeaderConflict);
            }
        },
        Err(_) => {
            return Err(JoseError::HeaderConflict);
        },
    }
    match choose_compression(&merged) {
        Ok(named) => {
            if named != zip {
                return Err(JoseError::HeaderConflict);
            }
        },
        Err(_) => {
            return Err(JoseError::HeaderConflict);
        },
    }
    let encrypted_key = match encrypter.wrap_key_for(cek, nonce, &merged, &mut out) {
        Ok(k) => k,
        Err(e) => {
            return Err(e);
        },
    };
    proof {
        if derived_as(encrypter@, cek@, nonce@, shared@ + header_view(own)) && sealed_for(
            encrypter@,
            cek@,
            nonce@,
        ) {
            lemma_pairs_recover(
                encrypter@,
                cek@,
                nonce@,
                shared@ + header_view(own),
                header_view(own),
                crate::json::bytes_view(encrypted_key),
                out@,
            );
        }
    }
    match encrypter.key_id() {
        Some(id) => {
            if merged.claim("kid").is_none() {
                out.set_key_id(id);
            }
        },
        None => {},
    }
    out.set_algorithm(encrypter.algorithm().name());
    if shared.merge(&out).is_err() {
        return Err(JoseError::HeaderConflict);
    }
    Ok(crate::json_form::JweRecipient { header: out, encrypted_key })
}

/// Says whether two content-encryption algorithms are the same.
pub fn same_encryption(a: JweContentEncryption, b: JweContentEncryption) -> (r: bool)
    ensures
        r == (a == b),
{
    match (a, b) {
        (JweContentEncryption::A128CbcHs256, JweContentEncryption::A128CbcHs256) => true,
        (JweContentEncryption::A192CbcHs384, JweContentEncryption::A192CbcHs384) => true,
        (JweContentEncryption::A256CbcHs512, JweContentEncryption::A256CbcHs512) => true,
        (JweContentEncryption::A128Gcm, JweContentEncryption::A128Gcm) => true,
        (JweContentEncryption::A192Gcm, JweContentEncryption::A192Gcm) => true,
        (JweContentEncryption::A256Gcm, JweContentEncryption::A256Gcm) => true,
        _ => false,
    }
}

/// Prepares what is sent to each recipient.
#[verifier::loop_isolation(false)]
#[verifier::rlimit(40)]
pub fn send_to_all(
    shared: &JweHeader,
    recipients: &[Addressee],
    nonces: &Vec<Vec<u8>>,
    enc: JweContentEncryption,
    zip: bool,
    cek: &[u8],
) -> (r: Result<Vec<crate::json_form::JweRecipient>, JoseError>)
    requires
        shared.wf(),
        addressees_wf(recipients@),
        nonces@.len() == recipients@.len(),
    ensures
        crate::json_form::recipient_list_view(r) == recipients_sent(
            shared@,
            recipients@,
            crate::compact::parts_view(nonces@),
            enc,
            zip,
            cek@,
        ),
        r matches Ok(x) ==> crate::json_form::recipients_wf(x@),
        r is Ok ==> forall|k: int|
            0 <= k < recipients@.len() ==> unwraps_back(
                (#[trigger] recipients@[k]).1@,
                cek@,
                crate::compact::parts_view(nonces@)[k],
                shared@ + header_view(recipients@[k].0),
                header_view(recipients@[k].0),
            ),
{
    let ghost drawn = crate::compact::parts_view(nonces@);
    let mut sent: Vec<crate::json_form::JweRecipient> = Vec::new();
    let mut i: usize = 0;
    while i < recipients.len()
        invariant
            i <= recipients@.len(),
            sent@.len() == i,
            crate::json_form::recipients_wf(sent@),
            all_sent_until(shared@, recipients@, drawn, i as int, enc, zip, cek@),
            forall|k: int|
                0 <= k < i ==> addressee_sent(shared@, recipients@, drawn, k, enc, zip, cek@)
                    == Ok::<SealedRecipient, JoseError>((#[trigger] sent@[k])@),
            forall|k: int|
                0 <= k < i ==> unwraps_back(
                    (#[trigger] recipients@[k]).1@,
                    cek@,
                    drawn[k],
                    shared@ + header_view(recipients@[k].0),
                    header_view(recipients@[k].0),
                ),
        decreases recipients@.len() - i,
    {
        let prepared = send_to(
            shared,
            recipients[i].0,
            recipients[i].1,
            enc,
            zip,
            cek,
            nonces[i].as_slice(),
        );
        assert(crate::json_form::recipient_view(prepared) == addressee_sent(
            shared@,
            recipients@,
            drawn,
            i as int,
            enc,
            zip,
            cek@,
        ));
        match prepared {
            Ok(recipient) => {
                sent.push(recipient);
            },
            Err(e) => {
                proof {
                    let bad = i as int;
                    let n = recipients@.len() as int;
                    assert(addressee_sent(shared@, recipients@, drawn, bad, enc, zip, cek@) is Err);
                    let k = choose|k: int|
                        0 <= k < n && (#[trigger] addressee_sent(
                            shared@,
                            recipients@,
                            drawn,
                            k,
                            enc,
                            zip,
                            cek@,
                        )) is Err && all_sent_until(shared@, recipients@, drawn, k, enc, zip, cek@);
                    if k < bad {
                        assert(addressee_sent(shared@, recipients@, drawn, k, enc, zip, cek@) is Ok);
                    }
                    if k > bad {
                        assert(addressee_sent(shared@, recipients@, drawn, bad, enc, zip, cek@)
                            is Ok);
                    }
                    assert(k == bad);
                }
                return Err(e);
            },
        }
        i += 1;
    }
    proof {
        assert(crate::json_form::recipients_view(sent@) =~= Seq::new(
            recipients@.len(),
            |k: int| addressee_sent(shared@, recipients@, drawn, k, enc, zip, cek@)->Ok_0,
        ));
    }
    Ok(sent)
}

/// The entries of the recipients in the list of recipients.
#[verifier::loop_isolation(false)]
#[verifier::rlimit(40)]
fn recipient_entries(sent: &Vec<crate::json_form::JweRecipient>) -> (r: Vec<JsonValue>)
    ensures
        items_view(r@) == recipient_entries_of(crate::json_form::recipients_view(sent@)),
        forall|i: int|
            0 <= i < sent@.len() ==> decodes_back_if_some(
                (#[trigger] crate::json_form::recipients_view(sent@)[i]).1,
            ),
{
    let mut entries: Vec<JsonValue> = Vec::new();
    let mut i: usize = 0;
    while i < sent.len()
        invariant
            i <= sent@.len(),
            entries@.len() == i,
            forall|k: int| 0 <= k < i ==> (#[trigger] entries@[k])@ == recipient_entry(sent@[k]@),
            forall|k: int| 0 <= k < i ==> decodes_back_if_some((#[trigger] sent@[k])@.1),
        decreases sent@.len() - i,
    {
        let mut members: Vec<(String, JsonValue)> = Vec::new();
        members.push(("header".to_owned(), sent[i].header.to_json()));
        assert(members_view(members@) =~= seq![("header"@, Json::Object(sent@[i as int]@.0))]);
        match &sent[i].encrypted_key {
            Some(k) => {
                push_bytes(&mut members, "encrypted_key", k.as_slice());
            },
            None => {},
        }
        assert(members_view(members@) =~= seq![("header"@, Json::Object(sent@[i as int]@.0))]
            + optional_member("encrypted_key"@, bytes_json(sent@[i as int]@.1)));
        proof {
            crate::json::lemma_object_view(members);
        }
        entries.push(JsonValue::Object(members));
        i += 1;
    }
    assert(items_view(entries@) =~= recipient_entries_of(
        crate::json_form::recipients_view(sent@),
    ));
    entries
}

/// The base64url text of the protected header, where there is one, and the
/// associated data that it binds with the caller's.
fn bind_protected(protected: Option<&JweHeader>, aad: Option<&[u8]>) -> (r: Result<
    (Option<String>, Vec<u8>),
    JoseError,
>)
    requires
        protected matches Some(h) ==> h.wf(),
    ensures
        match r {
            Ok((text, bound)) => protected_json(protected) matches Some(json)
                && crate::alg::text_view(text) == protected_chars(json) && bound@ == full_aad(
                protected_bound(json),
                aad_text(slice_view(aad)),
            ) && (protected matches Some(h) ==> decodes_back(json->0) && (claims_plain(h@)
                ==> crate::header::claims_parsed(json->0) == Some(h@))),
            Err(e) => protected_json(protected) is None && e == JoseError::MalformedInput,
        },
{
    let mut bound: Vec<u8> = Vec::new();
    let protected_text = match protected {
        Some(h) => {
            let text = match h.to_bytes() {
                Some(text) => text,
                None => {
                    return Err(JoseError::MalformedInput);
                },
            };
            let protected_text = encode_text(text.as_slice());
            append(&mut bound, protected_text.as_str().as_bytes());
            Some(protected_text)
        },
        None => None,
    };
    let ghost json = protected_json(protected)->0;
    assert(bound@ =~= protected_bound(json));
    match aad {
        Some(a) => {
            let text = encode(a);
            bound.push(0x2e);
            append(&mut bound, text.as_slice());
        },
        None => {},
    }
    assert(bound@ =~= full_aad(protected_bound(json), aad_text(slice_view(aad))));
    Ok((protected_text, bound))
}

/// The members of a message in general JSON form, in the order in which they
/// are written.
#[verifier::rlimit(40)]
fn general_object(
    protected_text: Option<String>,
    unprotected: Option<&JweHeader>,
    sent: &Vec<crate::json_form::JweRecipient>,
    aad: Option<&[u8]>,
    iv: &[u8],
    ciphertext: &[u8],
    tag: &[u8],
) -> (members: Vec<(String, JsonValue)>)
    ensures
        members_view(members@) == general_members(
            crate::alg::text_view(protected_text),
            header_json(unprotected),
            crate::json_form::recipients_view(sent@),
            slice_view(aad),
            iv@,
            ciphertext@,
            tag@,
        ),
        forall|i: int|
            0 <= i < sent@.len() ==> decodes_back_if_some(
                (#[trigger] crate::json_form::recipients_view(sent@)[i]).1,
            ),
        decodes_back_if_some(slice_view(aad)),
        decodes_back(iv@),
        decodes_back(ciphertext@),
        decodes_back(tag@),
{
    let mut members: Vec<(String, JsonValue)> = Vec::new();
    let ghost text = crate::alg::text_view(protected_text);
    match protected_text {
        Some(t) => {
            members.push(("protected".to_owned(), JsonValue::String(t)));
        },
        None => {},
    }
    assert(members_view(members@) =~= optional_member(
        "protected"@,
        match text {
            Some(t) => Some(Json::String(t)),
            None => None,
        },
    ));
    push_header(&mut members, "unprotected", unprotected);
    let entries = recipient_entries(sent);
    proof {
        crate::json::lemma_array_view(entries);
    }
    let ghost before = members_view(members@);
    members.push(("recipients".to_owned(), JsonValue::Array(entries)));
    assert(recipient_entries_of(crate::json_form::recipients_view(sent@)) =~= Seq::new(
        sent@.len(),
        |i: int| recipient_entry(crate::json_form::recipients_view(sent@)[i]),
    ));
    assert(members_view(members@) =~= before + seq![
        (
            "recipients"@,
            Json::Array(recipient_entries_of(crate::json_form::recipients_view(sent@))),
        ),
    ]);
    match aad {
        Some(a) => {
            push_bytes(&mut members, "aad", a);
        },
        None => {},
    }
    push_bytes(&mut members, "iv", iv);
    push_bytes(&mut members, "ciphertext", ciphertext);
    push_bytes(&mut members, "tag", tag);
    assert(members_view(members@) =~= general_members(
        text,
        header_json(unprotected),
        crate::json_form::recipients_view(sent@),
        slice_view(aad),
        iv@,
        ciphertext@,
        tag@,
    ));
    members
}

/// Seals a payload for recipients whose headers and keys are ready to be
/// sent, and writes the general JSON text.
#[verifier::rlimit(40)]
pub fn seal_general(
    protected: Option<&JweHeader>,
    unprotected: Option<&JweHeader>,
    sent: &Vec<crate::json_form::JweRecipient>,
    aad: Option<&[u8]>,
    enc: JweContentEncryption,
    zip: bool,
    cek: &[u8],
    iv: &[u8],
    payload: &[u8],
) -> (r: Result<Vec<u8>, JoseError>)
    requires
        protected matches Some(h) ==> h.wf(),
    ensures
        key_view(r) == general_sealed(
            protected,
            unprotected,
            crate::json_form::recipients_view(sent@),
            slice_view(aad),
            enc,
            zip,
            cek@,
            iv@,
            payload@,
        ),
        r matches Ok(text) ==> valid_utf8(text@),
        r matches Ok(text) ==> (general_premises(
            protected,
            unprotected,
            crate::json_form::recipients_view(sent@),
        ) ==> (json_message_parsed(text@) matches Ok(m) && m.recipients == recipients_read(
            header_view(protected) + header_view(unprotected),
            crate::json_form::recipients_view(sent@),
        ) && content_recovered(recipient_sealed(m, 0), enc, zip, cek@) == Ok::<Seq<u8>, JoseError>(
            payload@,
        ))),
{
    let (protected_text, bound) = match bind_protected(protected, aad) {
        Ok(bound) => bound,
        Err(e) => {
            return Err(e);
        },
    };
    let ghost json = protected_json(protected)->0;
    let packed: Vec<u8>;
    let content: &[u8] = if zip {
        match deflate(payload) {
            Some(c) => {
                packed = c;
                packed.as_slice()
            },
            None => {
                return Err(JoseError::MalformedInput);
            },
        }
    } else {
        payload
    };
    if bound.len() > MAX_INPUT_LEN || content.len() > MAX_INPUT_LEN - 16 {
        return Err(JoseError::MalformedInput);
    }
    let (ciphertext, tag) = match enc.encrypt(cek, iv, bound.as_slice(), content) {
        Some(sealed) => sealed,
        None => {
            return Err(JoseError::KeyMismatch);
        },
    };
    let members = general_object(
        protected_text,
        unprotected,
        sent,
        aad,
        iv,
        ciphertext.as_slice(),
        tag.as_slice(),
    );
    proof {
        crate::json::lemma_object_view(members);
    }
    let ghost written = members_view(members@);
    let ghost sentv = crate::json_form::recipients_view(sent@);
    match JsonValue::Object(members).render() {
        Some(text) => {
            proof {
                lemma_general_sealed(
                    text@,
                    written,
                    protected,
                    json,
                    unprotected,
                    sentv,
                    slice_view(aad),
                    iv@,
                    ciphertext@,
                    tag@,
                );
            }
            Ok(text)
        },
        None => Err(JoseError::MalformedInput),
    }
}

} // verus!
