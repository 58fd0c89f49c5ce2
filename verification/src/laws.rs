use crate::alg::{content_key, key_wrapped_for, Keyed};
use crate::base64url::{dot, dot_free};
use crate::compact::lemma_first_dot;
use crate::equality::same_claims;
use crate::error::JoseError;
use crate::header::{claims_ok, share_name, Claims, JweHeader};
use crate::json::{lemma_position_found, lookup, lookup_text};
use crate::json_form::{
    full_aad, json_message_opened, json_opened, none_applies_until, none_opens_until,
    recipient_opened, SealedJson,
};
use crate::message::{
    chosen_compression, chosen_encryption, compact_opened, criticals_accepted, message_opened,
};
use crate::sealing::{
    flattened_serialized, general_serialized, header_sealed, header_view, some_derives, Addressee,
};
use vstd::prelude::*;

verus! {

/// A name that is a claim of both the protected and the shared header, or of
/// one of them and the recipient's, makes building a flattened message fail
/// with a header conflict, whatever the payload, the key and the random bytes.
pub proof fn law_shared_name_refused(
    payload: Seq<u8>,
    protected: Option<&JweHeader>,
    unprotected: Option<&JweHeader>,
    own: Option<&JweHeader>,
    aad: Option<Seq<u8>>,
    holder: Keyed,
    seed: Seq<u8>,
    nonce: Seq<u8>,
    iv: Seq<u8>,
)
    requires
        share_name(header_view(protected), header_view(unprotected)) || share_name(
            header_view(protected) + header_view(unprotected),
            header_view(own),
        ),
    ensures
        flattened_serialized(payload, protected, unprotected, own, aad, holder, seed, nonce, iv)
            == Err::<Seq<u8>, JoseError>(JoseError::HeaderConflict),
{
}

/// A flattened message that was built has a protected header that shares no
/// name with the shared header or with the recipient's: what the key
/// wrapping, the key identifier and the algorithm add to it is checked too.
pub proof fn law_built_headers_exclusive(
    payload: Seq<u8>,
    protected: Option<&JweHeader>,
    unprotected: Option<&JweHeader>,
    own: Option<&JweHeader>,
    aad: Option<Seq<u8>>,
    holder: Keyed,
    seed: Seq<u8>,
    nonce: Seq<u8>,
    iv: Seq<u8>,
)
    requires
        flattened_serialized(payload, protected, unprotected, own, aad, holder, seed, nonce, iv)
            is Ok,
    ensures
        !share_name(header_view(protected), header_view(unprotected)),
        !share_name(header_view(protected) + header_view(unprotected), header_view(own)),
        ({
            let merged = header_view(protected) + header_view(unprotected) + header_view(own);
            let enc = chosen_encryption(merged)->Ok_0;
            let cek = content_key(holder, enc, seed, nonce, merged)->Ok_0;
            let wrapped = key_wrapped_for(
                holder,
                cek,
                nonce,
                merged,
                header_view(protected),
            )->Ok_0.1;
            let sent = header_sealed(wrapped, merged, holder);
            !share_name(sent, header_view(unprotected)) && !share_name(sent, header_view(own))
        }),
{
}

/// A name that is a claim of both the protected and the shared header makes
/// building a message for several recipients fail with a header conflict.
pub proof fn law_shared_name_refused_for_all(
    payload: Seq<u8>,
    protected: Option<&JweHeader>,
    unprotected: Option<&JweHeader>,
    recipients: Seq<Addressee>,
    aad: Option<Seq<u8>>,
    seed: Seq<u8>,
    nonces: Seq<Seq<u8>>,
    iv: Seq<u8>,
)
    requires
        share_name(header_view(protected), header_view(unprotected)),
        recipients.len() >= 1,
        nonces.len() == recipients.len(),
        recipients.len() > 1 ==> !some_derives(recipients),
    ensures
        general_serialized(payload, protected, unprotected, recipients, aad, seed, nonces, iv)
            == Err::<Seq<u8>, JoseError>(JoseError::HeaderConflict),
{
}

/// Opening is a function of the text and the decrypter: two outcomes of
/// opening one compact text with one decrypter are the same outcome, with
/// the same payload and headers that hold the same claims.
pub proof fn law_opening_repeats(
    text: Seq<u8>,
    holder: Keyed,
    acceptable: Seq<Seq<char>>,
    first: Result<(Seq<u8>, Claims), JoseError>,
    second: Result<(Seq<u8>, Claims), JoseError>,
)
    requires
        first == compact_opened(text, holder, acceptable),
        second == compact_opened(text, holder, acceptable),
    ensures
        first == second,
        first matches Ok((p, h)) ==> (second matches Ok((q, g)) && p == q && (claims_ok(h)
            ==> same_claims(h, g))),
{
    match first {
        Ok((p, h)) => {
            if claims_ok(h) {
                assert forall|i: int| 0 <= i < h.len() implies lookup(h, (#[trigger] h[i]).0)
                    == Some(h[i].1) by {
                    lemma_position_found(h, h[i].0);
                    let k = crate::json::position(h, h[i].0);
                    if k != i {
                        if k < i {
                            assert(h[k].0 != h[i].0);
                        }
                    }
                }
            }
        },
        Err(_) => {},
    }
}

/// Opening a text in JSON form is a function of the text and the decrypter.
pub proof fn law_opening_json_repeats(
    text: Seq<u8>,
    holder: Keyed,
    acceptable: Seq<Seq<char>>,
    first: Result<(Seq<u8>, Claims), JoseError>,
    second: Result<(Seq<u8>, Claims), JoseError>,
)
    requires
        first == json_opened(text, holder, acceptable),
        second == json_opened(text, holder, acceptable),
    ensures
        first == second,
{
}

/// A decrypter whose algorithm no recipient's header names opens nothing:
/// where every recipient's header names a content encryption and a
/// compression that are known, calls nothing critical that is not accepted,
/// and names an algorithm other than the decrypter's, no algorithm applies.
pub proof fn law_stranger_refused(message: SealedJson, holder: Keyed, acceptable: Seq<Seq<char>>)
    requires
        forall|i: int|
            0 <= i < message.recipients.len() ==> {
                let claims = (#[trigger] message.recipients[i]).0;
                &&& chosen_encryption(claims) is Ok
                &&& chosen_compression(claims) is Ok
                &&& criticals_accepted(claims, acceptable)
                &&& lookup_text(claims, "alg"@) is Some
                &&& lookup_text(claims, "alg"@) != Some(holder.algorithm.spec_name())
            },
    ensures
        json_message_opened(message, holder, acceptable) == Err::<(Seq<u8>, Claims), JoseError>(
            JoseError::NoApplicableAlgorithm,
        ),
{
    let n = message.recipients.len() as int;
    assert forall|i: int| 0 <= i < n implies (#[trigger] recipient_opened(
        message,
        i,
        holder,
        acceptable,
    )) == Err::<Seq<u8>, JoseError>(JoseError::NoApplicableAlgorithm) by {
        let claims = message.recipients[i].0;
        assert(chosen_encryption(claims) is Ok);
    }
    assert(none_opens_until(message, holder, acceptable, n));
    assert(none_applies_until(message, holder, acceptable, n));
}

/// A decrypter with a key identifier that no recipient's header carries
/// opens nothing: no algorithm applies.
pub proof fn law_unknown_key_refused(message: SealedJson, holder: Keyed, acceptable: Seq<Seq<char>>)
    requires
        holder.key_id is Some,
        forall|i: int|
            0 <= i < message.recipients.len() ==> {
                let claims = (#[trigger] message.recipients[i]).0;
                &&& chosen_encryption(claims) is Ok
                &&& chosen_compression(claims) is Ok
                &&& criticals_accepted(claims, acceptable)
                &&& lookup_text(claims, "alg"@) is Some
                &&& lookup_text(claims, "kid"@) != holder.key_id
            },
    ensures
        json_message_opened(message, holder, acceptable) == Err::<(Seq<u8>, Claims), JoseError>(
            JoseError::NoApplicableAlgorithm,
        ),
{
    let n = message.recipients.len() as int;
    assert forall|i: int| 0 <= i < n implies (#[trigger] recipient_opened(
        message,
        i,
        holder,
        acceptable,
    )) == Err::<Seq<u8>, JoseError>(JoseError::NoApplicableAlgorithm) by {
        let claims = message.recipients[i].0;
        assert(chosen_encryption(claims) is Ok);
    }
    assert(none_opens_until(message, holder, acceptable, n));
    assert(none_applies_until(message, holder, acceptable, n));
}

/// Whatever fails once the header is accepted and the key fits is one
/// failure: a message whose key cannot be unwrapped, whose tag does not
/// verify or whose content does not inflate fails to decrypt, and nothing is
/// said of where. So where the ciphertext, the tag, the IV or the associated
/// data was changed and the cipher notices, that is the failure.
pub proof fn law_failures_are_one(
    message: crate::message::Sealed,
    holder: Keyed,
    acceptable: Seq<Seq<char>>,
)
    requires
        chosen_encryption(message.claims) is Ok,
        chosen_compression(message.claims) is Ok,
        criticals_accepted(message.claims, acceptable),
        lookup_text(message.claims, "alg"@) == Some(holder.algorithm.spec_name()),
        holder.key_id is Some ==> lookup_text(message.claims, "kid"@) == holder.key_id,
        crate::alg::key_unwrapped(holder, message.encrypted_key, message.claims) matches Ok(k)
            && k.len() == chosen_encryption(message.claims)->Ok_0.spec_key_len(),
    ensures
        message_opened(message, holder, acceptable) is Err ==> message_opened(
            message,
            holder,
            acceptable,
        ) == Err::<Seq<u8>, JoseError>(JoseError::DecryptionFailed),
{
}

/// The associated data binds the protected header and the caller's data:
/// two messages whose protected headers are base64url text, and whose bound
/// data is the same, have the same protected header and carry the same data
/// of the caller, or both none.
pub proof fn law_aad_binds(
    first_protected: Seq<u8>,
    first_aad: Option<Seq<u8>>,
    second_protected: Seq<u8>,
    second_aad: Option<Seq<u8>>,
)
    requires
        dot_free(first_protected),
        dot_free(second_protected),
        full_aad(first_protected, first_aad) == full_aad(second_protected, second_aad),
    ensures
        first_protected == second_protected,
        first_aad == second_aad,
{
    let a = full_aad(first_protected, first_aad);
    let b = full_aad(second_protected, second_aad);
    assert forall|i: int| 0 <= i < first_protected.len() implies a[i] != dot() by {
        assert(a[i] == first_protected[i]);
    }
    assert forall|i: int| 0 <= i < second_protected.len() implies b[i] != dot() by {
        assert(b[i] == second_protected[i]);
    }
    if first_aad is Some {
        assert(a[first_protected.len() as int] == dot());
    }
    if second_aad is Some {
        assert(b[second_protected.len() as int] == dot());
    }
    lemma_first_dot(a, first_protected.len() as int);
    lemma_first_dot(b, second_protected.len() as int);
    assert(first_protected =~= a.subrange(0, first_protected.len() as int));
    assert(second_protected =~= b.subrange(0, second_protected.len() as int));
    match (first_aad, second_aad) {
        (Some(x), Some(y)) => {
            assert(x =~= a.subrange(first_protected.len() as int + 1, a.len() as int));
            assert(y =~= b.subrange(second_protected.len() as int + 1, b.len() as int));
        },
        (Some(x), None) => {
            assert(a.len() > b.len());
        },
        (None, Some(y)) => {
            assert(a.len() < b.len());
        },
        (None, None) => {},
    }
}

/// The composite opens a message only where its tag is the one computed over
/// what was received: the associated data, the IV and the ciphertext as they
/// stand in the message.
pub proof fn law_composite_checks_tag(
    enc: crate::content::JweContentEncryption,
    key: Seq<u8>,
    iv: Seq<u8>,
    aad: Seq<u8>,
    ciphertext: Seq<u8>,
    tag: Seq<u8>,
)
    requires
        !enc.spec_is_gcm(),
        crate::content::content_opened(enc, key, iv, aad, ciphertext, tag) is Some,
    ensures
        crate::content::composite_tag(enc, key, iv, aad, ciphertext) == Some(tag),
        tag.len() == enc.spec_tag_len(),
{
}

/// Where a decrypter opens one recipient of a message, it opens the message;
/// and where it opens none before that one, it opens the message to that
/// recipient's payload and header.
pub proof fn law_recipient_opens_message(
    message: SealedJson,
    i: int,
    holder: Keyed,
    acceptable: Seq<Seq<char>>,
    payload: Seq<u8>,
)
    requires
        0 <= i < message.recipients.len(),
        recipient_opened(message, i, holder, acceptable) == Ok::<Seq<u8>, JoseError>(payload),
    ensures
        json_message_opened(message, holder, acceptable) is Ok,
        none_opens_until(message, holder, acceptable, i) ==> json_message_opened(
            message,
            holder,
            acceptable,
        ) == Ok::<(Seq<u8>, Claims), JoseError>((payload, message.recipients[i].0)),
{
    let n = message.recipients.len() as int;
    assert(!none_opens_until(message, holder, acceptable, n));
    let c = choose|c: int|
        0 <= c < n && (#[trigger] recipient_opened(message, c, holder, acceptable)) is Ok
            && none_opens_until(message, holder, acceptable, c);
    lemma_first_opening(message, holder, acceptable, n);
    if none_opens_until(message, holder, acceptable, i) {
        if c < i {
            assert(recipient_opened(message, c, holder, acceptable) is Err);
        }
        if c > i {
            assert(recipient_opened(message, i, holder, acceptable) is Err);
        }
    }
}

/// Where some recipient among the first `n` opens, there is a first that
/// does.
pub proof fn lemma_first_opening(
    message: SealedJson,
    holder: Keyed,
    acceptable: Seq<Seq<char>>,
    n: int,
)
    requires
        0 <= n <= message.recipients.len(),
        !none_opens_until(message, holder, acceptable, n),
    ensures
        exists|c: int|
            0 <= c < n && (#[trigger] recipient_opened(message, c, holder, acceptable)) is Ok
                && none_opens_until(message, holder, acceptable, c),
    decreases n,
{
    if n > 0 {
        if none_opens_until(message, holder, acceptable, n - 1) {
            assert(recipient_opened(message, n - 1, holder, acceptable) is Ok);
        } else {
            lemma_first_opening(message, holder, acceptable, n - 1);
        }
    }
}

} // verus!
