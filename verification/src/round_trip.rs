use crate::alg::{
    content_key, derived_as, key_unwrapped, key_wrapped, key_wrapped_for, lemma_parameter_names,
    pairs, reads_alike, recovered_by_pairs, sealed_for, Keyed,
};
use crate::base64url::{base64url_bytes, base64url_chars, base64url_text};
use crate::content::JweContentEncryption;
use crate::error::JoseError;
use crate::header::{
    claims_ok, claims_parsed, claims_plain, lemma_names_differ, lemma_share_name_concat,
    lemma_with_claim, share_name, with_claim, Claims, JweHeader,
};
use crate::json::{
    json_parsed, json_plain, lemma_lookup_concat, lemma_position_found, lookup, lookup_text,
    names_distinct, plain_depth, Json,
};
use crate::json_form::{
    aad_parsed, entries_ok_until, entries_parsed, entry_parsed, full_aad, json_message_opened,
    json_message_parsed, json_opened, member_bytes, member_claims, members_parsed, protected_parsed,
    recipient_opened, recipient_parsed, recipient_sealed, recipients_parsed, required_bytes,
    Members, SealedJson, SealedRecipient,
};
use crate::message::{
    chosen_compression, chosen_encryption, content_recovered, criticals_accepted, message_opened,
};
use crate::sealing::{
    aad_text, addressee_sent, addressees_wf, all_sent_until, bytes_json, flattened_members,
    general_members, general_opens_back, general_premises, general_sent, goes_with, header_json,
    header_sealed, header_view, headers_merged, nested_plain, opens_back_json, optional_member,
    protected_bound, protected_chars, recipient_entry, recipient_sent, recipients_sent,
    some_derives, unwraps_back, Addressee,
};
use vstd::prelude::*;
use vstd::utf8::encode_utf8;

verus! {

/// The names of the members of a message in JSON form are different names.
pub proof fn lemma_member_names_differ()
    ensures
        "protected"@ != "unprotected"@,
        "protected"@ != "header"@,
        "protected"@ != "encrypted_key"@,
        "protected"@ != "aad"@,
        "protected"@ != "iv"@,
        "protected"@ != "ciphertext"@,
        "protected"@ != "tag"@,
        "protected"@ != "recipients"@,
        "unprotected"@ != "header"@,
        "unprotected"@ != "encrypted_key"@,
        "unprotected"@ != "aad"@,
        "unprotected"@ != "iv"@,
        "unprotected"@ != "ciphertext"@,
        "unprotected"@ != "tag"@,
        "unprotected"@ != "recipients"@,
        "header"@ != "encrypted_key"@,
        "header"@ != "aad"@,
        "header"@ != "iv"@,
        "header"@ != "ciphertext"@,
        "header"@ != "tag"@,
        "header"@ != "recipients"@,
        "encrypted_key"@ != "aad"@,
        "encrypted_key"@ != "iv"@,
        "encrypted_key"@ != "ciphertext"@,
        "encrypted_key"@ != "tag"@,
        "encrypted_key"@ != "recipients"@,
        "aad"@ != "iv"@,
        "aad"@ != "ciphertext"@,
        "aad"@ != "tag"@,
        "aad"@ != "recipients"@,
        "iv"@ != "ciphertext"@,
        "iv"@ != "tag"@,
        "iv"@ != "recipients"@,
        "ciphertext"@ != "tag"@,
        "ciphertext"@ != "recipients"@,
        "tag"@ != "recipients"@,
{
    reveal_strlit("protected");
    reveal_strlit("unprotected");
    reveal_strlit("header");
    reveal_strlit("encrypted_key");
    reveal_strlit("aad");
    reveal_strlit("iv");
    reveal_strlit("ciphertext");
    reveal_strlit("tag");
    reveal_strlit("recipients");
    assert("protected"@.len() == 9 && "protected"@[0] == 'p' && "protected"@[1] == 'r' && "protected"@[2] == 'o');
    assert("unprotected"@.len() == 11 && "unprotected"@[0] == 'u' && "unprotected"@[1] == 'n' && "unprotected"@[2] == 'p');
    assert("header"@.len() == 6 && "header"@[0] == 'h' && "header"@[1] == 'e' && "header"@[2] == 'a');
    assert("encrypted_key"@.len() == 13 && "encrypted_key"@[0] == 'e' && "encrypted_key"@[1] == 'n' && "encrypted_key"@[2] == 'c');
    assert("aad"@.len() == 3 && "aad"@[0] == 'a' && "aad"@[1] == 'a' && "aad"@[2] == 'd');
    assert("iv"@.len() == 2 && "iv"@[0] == 'i' && "iv"@[1] == 'v');
    assert("ciphertext"@.len() == 10 && "ciphertext"@[0] == 'c' && "ciphertext"@[1] == 'i' && "ciphertext"@[2] == 'p');
    assert("tag"@.len() == 3 && "tag"@[0] == 't' && "tag"@[1] == 'a' && "tag"@[2] == 'g');
    assert("recipients"@.len() == 10 && "recipients"@[0] == 'r' && "recipients"@[1] == 'e' && "recipients"@[2] == 'c');
}

/// Every member's value is plain down to `depth` levels.
#[verifier::opaque]
pub open spec fn all_plain(s: Members, depth: nat) -> bool {
    forall|k: int| 0 <= k < s.len() ==> json_plain((#[trigger] s[k]).1, depth)
}

/// No two members share a name.
#[verifier::opaque]
pub open spec fn tidy(s: Members) -> bool {
    names_distinct(s)
}

/// A member added behind others, under a name that none of them has, is found
/// under its name; the others are found as before, and no name occurs twice.
pub proof fn lemma_add_member(s: Members, name: Seq<char>, value: Option<Json>)
    requires
        tidy(s),
        lookup(s, name) is None,
    ensures
        tidy(s + optional_member(name, value)),
        lookup(s + optional_member(name, value), name) == value,
        forall|other: Seq<char>|
            other != name ==> #[trigger] lookup(s + optional_member(name, value), other) == lookup(
                s,
                other,
            ),
{
    reveal(tidy);
    let added = optional_member(name, value);
    let t = s + added;
    lemma_position_found(s, name);
    assert forall|other: Seq<char>| true implies #[trigger] lookup(t, other) == if lookup(s, other)
        is Some {
        lookup(s, other)
    } else {
        lookup(added, other)
    } by {
        lemma_lookup_concat(s, added, other);
    }
    match value {
        Some(v) => {
            assert(added =~= seq![(name, v)]);
            assert forall|other: Seq<char>| true implies #[trigger] lookup(added, other) == if other
                == name {
                Some(v)
            } else {
                None::<Json>
            } by {
                lemma_position_found(added, other);
            }
            assert forall|i: int, j: int| 0 <= i < j < t.len() implies (#[trigger] t[i]).0 != (
            #[trigger] t[j]).0 by {
                if j < s.len() {
                    assert(t[i] == s[i] && t[j] == s[j]);
                } else {
                    assert(t[i] == s[i]);
                    assert(t[j] == (name, v));
                }
            }
        },
        None => {
            assert(t =~= s);
            assert forall|other: Seq<char>| true implies #[trigger] lookup(added, other)
                is None by {
                lemma_position_found(added, other);
            }
        },
    }
}

/// A member added behind others leaves the values as plain as they were,
/// where its own is.
pub proof fn lemma_add_member_plain(s: Members, name: Seq<char>, value: Option<Json>, depth: nat)
    requires
        all_plain(s, depth),
        value matches Some(v) ==> json_plain(v, depth),
    ensures
        all_plain(s + optional_member(name, value), depth),
{
    reveal(all_plain);
    let t = s + optional_member(name, value);
    assert forall|k: int| 0 <= k < t.len() implies json_plain((#[trigger] t[k]).1, depth) by {
        if k < s.len() {
            assert(t[k] == s[k]);
        } else {
            assert(t[k] == (name, value->0));
        }
    }
}

/// The base64url text of the bytes, taken as characters and back, is the
/// text, and decodes to the bytes.
pub open spec fn decodes_back(bytes: Seq<u8>) -> bool {
    &&& encode_utf8(base64url_chars(bytes)) == base64url_text(bytes)
    &&& base64url_bytes(base64url_text(bytes)) == Some(bytes)
}

/// The bytes, where there are any, decode back.
pub open spec fn decodes_back_if_some(bytes: Option<Seq<u8>>) -> bool {
    bytes matches Some(b) ==> decodes_back(b)
}

/// The claims of a header that may be absent, as a JSON object.
pub open spec fn claims_json(claims: Option<Claims>) -> Option<Json> {
    match claims {
        Some(c) => Some(Json::Object(c)),
        None => None,
    }
}

/// The claims of a header that may be absent.
pub open spec fn claims_or_none(claims: Option<Claims>) -> Claims {
    match claims {
        Some(c) => c,
        None => Seq::empty(),
    }
}

/// The members of a flattened message are found under their names, no name
/// occurs twice, and there is no list of recipients.
#[verifier::spinoff_prover]
#[verifier::rlimit(60)]
pub proof fn lemma_flattened_members(
    protected_text: Seq<char>,
    unprotected: Option<Json>,
    own: Option<Json>,
    encrypted_key: Option<Seq<u8>>,
    aad: Option<Seq<u8>>,
    iv: Seq<u8>,
    ciphertext: Seq<u8>,
    tag: Seq<u8>,
)
    ensures
        ({
            let m = flattened_members(
                protected_text,
                unprotected,
                own,
                encrypted_key,
                aad,
                iv,
                ciphertext,
                tag,
            );
            &&& tidy(m)
            &&& lookup(m, "protected"@) == Some(Json::String(protected_text))
            &&& lookup(m, "unprotected"@) == unprotected
            &&& lookup(m, "header"@) == own
            &&& lookup(m, "encrypted_key"@) == bytes_json(encrypted_key)
            &&& lookup(m, "aad"@) == bytes_json(aad)
            &&& lookup(m, "iv"@) == Some(Json::String(base64url_chars(iv)))
            &&& lookup(m, "ciphertext"@) == Some(Json::String(base64url_chars(ciphertext)))
            &&& lookup(m, "tag"@) == Some(Json::String(base64url_chars(tag)))
            &&& lookup(m, "recipients"@) is None
        }),
{
    lemma_member_names_differ();
    let s0 = Seq::<(Seq<char>, Json)>::empty();
    assert forall|name: Seq<char>| true implies #[trigger] lookup(s0, name) is None by {
        lemma_position_found(s0, name);
    }
    assert(tidy(s0)) by {
        reveal(tidy);
    }
    let v1 = Some(Json::String(protected_text));
    let s1 = s0 + optional_member("protected"@, v1);
    lemma_add_member(s0, "protected"@, v1);
    assert(lookup(s1, "unprotected"@) == lookup(s0, "unprotected"@));
    let s2 = s1 + optional_member("unprotected"@, unprotected);
    lemma_add_member(s1, "unprotected"@, unprotected);
    assert(lookup(s2, "header"@) == lookup(s1, "header"@));
    assert(lookup(s1, "header"@) == lookup(s0, "header"@));
    let s3 = s2 + optional_member("header"@, own);
    lemma_add_member(s2, "header"@, own);
    assert(lookup(s3, "encrypted_key"@) == lookup(s2, "encrypted_key"@));
    assert(lookup(s2, "encrypted_key"@) == lookup(s1, "encrypted_key"@));
    assert(lookup(s1, "encrypted_key"@) == lookup(s0, "encrypted_key"@));
    let s4 = s3 + optional_member("encrypted_key"@, bytes_json(encrypted_key));
    lemma_add_member(s3, "encrypted_key"@, bytes_json(encrypted_key));
    assert(lookup(s4, "aad"@) == lookup(s3, "aad"@));
    assert(lookup(s3, "aad"@) == lookup(s2, "aad"@));
    assert(lookup(s2, "aad"@) == lookup(s1, "aad"@));
    assert(lookup(s1, "aad"@) == lookup(s0, "aad"@));
    let s5 = s4 + optional_member("aad"@, bytes_json(aad));
    lemma_add_member(s4, "aad"@, bytes_json(aad));
    lemma_untouched(s0, s1, s2, s3, s4, s5, "iv"@);
    let v6 = Some(Json::String(base64url_chars(iv)));
    let s6 = s5 + optional_member("iv"@, v6);
    lemma_add_member(s5, "iv"@, v6);
    lemma_untouched(s0, s1, s2, s3, s4, s5, "ciphertext"@);
    assert(lookup(s6, "ciphertext"@) == lookup(s5, "ciphertext"@));
    let v7 = Some(Json::String(base64url_chars(ciphertext)));
    let s7 = s6 + optional_member("ciphertext"@, v7);
    lemma_add_member(s6, "ciphertext"@, v7);
    lemma_untouched(s0, s1, s2, s3, s4, s5, "tag"@);
    assert(lookup(s6, "tag"@) == lookup(s5, "tag"@));
    assert(lookup(s7, "tag"@) == lookup(s6, "tag"@));
    let v8 = Some(Json::String(base64url_chars(tag)));
    let s8 = s7 + optional_member("tag"@, v8);
    lemma_add_member(s7, "tag"@, v8);
    lemma_untouched(s0, s1, s2, s3, s4, s5, "recipients"@);
    assert(lookup(s6, "recipients"@) == lookup(s5, "recipients"@));
    assert(lookup(s7, "recipients"@) == lookup(s6, "recipients"@));
    assert(lookup(s8, "recipients"@) == lookup(s7, "recipients"@));
    assert(lookup(s8, "protected"@) == lookup(s1, "protected"@)) by {
        assert(lookup(s2, "protected"@) == lookup(s1, "protected"@));
        assert(lookup(s3, "protected"@) == lookup(s2, "protected"@));
        assert(lookup(s4, "protected"@) == lookup(s3, "protected"@));
        assert(lookup(s5, "protected"@) == lookup(s4, "protected"@));
        assert(lookup(s6, "protected"@) == lookup(s5, "protected"@));
        assert(lookup(s7, "protected"@) == lookup(s6, "protected"@));
        assert(lookup(s8, "protected"@) == lookup(s7, "protected"@));
    }
    assert(lookup(s8, "unprotected"@) == lookup(s2, "unprotected"@)) by {
        assert(lookup(s3, "unprotected"@) == lookup(s2, "unprotected"@));
        assert(lookup(s4, "unprotected"@) == lookup(s3, "unprotected"@));
        assert(lookup(s5, "unprotected"@) == lookup(s4, "unprotected"@));
        assert(lookup(s6, "unprotected"@) == lookup(s5, "unprotected"@));
        assert(lookup(s7, "unprotected"@) == lookup(s6, "unprotected"@));
        assert(lookup(s8, "unprotected"@) == lookup(s7, "unprotected"@));
    }
    assert(lookup(s8, "header"@) == lookup(s3, "header"@)) by {
        assert(lookup(s4, "header"@) == lookup(s3, "header"@));
        assert(lookup(s5, "header"@) == lookup(s4, "header"@));
        assert(lookup(s6, "header"@) == lookup(s5, "header"@));
        assert(lookup(s7, "header"@) == lookup(s6, "header"@));
        assert(lookup(s8, "header"@) == lookup(s7, "header"@));
    }
    assert(lookup(s8, "encrypted_key"@) == lookup(s4, "encrypted_key"@)) by {
        assert(lookup(s5, "encrypted_key"@) == lookup(s4, "encrypted_key"@));
        assert(lookup(s6, "encrypted_key"@) == lookup(s5, "encrypted_key"@));
        assert(lookup(s7, "encrypted_key"@) == lookup(s6, "encrypted_key"@));
        assert(lookup(s8, "encrypted_key"@) == lookup(s7, "encrypted_key"@));
    }
    assert(lookup(s8, "aad"@) == lookup(s5, "aad"@)) by {
        assert(lookup(s6, "aad"@) == lookup(s5, "aad"@));
        assert(lookup(s7, "aad"@) == lookup(s6, "aad"@));
        assert(lookup(s8, "aad"@) == lookup(s7, "aad"@));
    }
    assert(lookup(s8, "iv"@) == lookup(s6, "iv"@)) by {
        assert(lookup(s7, "iv"@) == lookup(s6, "iv"@));
        assert(lookup(s8, "iv"@) == lookup(s7, "iv"@));
    }
    assert(lookup(s8, "ciphertext"@) == lookup(s7, "ciphertext"@));
    assert(s8 =~= flattened_members(
        protected_text,
        unprotected,
        own,
        encrypted_key,
        aad,
        iv,
        ciphertext,
        tag,
    ));
}

/// A name that is none of the first five members' is not found among them.
proof fn lemma_untouched(
    s0: Members,
    s1: Members,
    s2: Members,
    s3: Members,
    s4: Members,
    s5: Members,
    name: Seq<char>,
)
    requires
        lookup(s0, name) is None,
        lookup(s1, name) == lookup(s0, name),
        lookup(s2, name) == lookup(s1, name),
        lookup(s3, name) == lookup(s2, name),
        lookup(s4, name) == lookup(s3, name),
        lookup(s5, name) == lookup(s4, name),
    ensures
        lookup(s5, name) is None,
{
}

/// The values of the members of a flattened message are as plain as the two
/// headers are.
pub proof fn lemma_flattened_plain(
    protected_text: Seq<char>,
    unprotected: Option<Json>,
    own: Option<Json>,
    encrypted_key: Option<Seq<u8>>,
    aad: Option<Seq<u8>>,
    iv: Seq<u8>,
    ciphertext: Seq<u8>,
    tag: Seq<u8>,
    depth: nat,
)
    requires
        unprotected matches Some(v) ==> json_plain(v, depth),
        own matches Some(v) ==> json_plain(v, depth),
    ensures
        all_plain(
            flattened_members(
                protected_text,
                unprotected,
                own,
                encrypted_key,
                aad,
                iv,
                ciphertext,
                tag,
            ),
            depth,
        ),
{
    let s0 = Seq::<(Seq<char>, Json)>::empty();
    assert(all_plain(s0, depth)) by {
        reveal(all_plain);
    }
    let v1 = Some(Json::String(protected_text));
    let s1 = s0 + optional_member("protected"@, v1);
    lemma_add_member_plain(s0, "protected"@, v1, depth);
    let s2 = s1 + optional_member("unprotected"@, unprotected);
    lemma_add_member_plain(s1, "unprotected"@, unprotected, depth);
    let s3 = s2 + optional_member("header"@, own);
    lemma_add_member_plain(s2, "header"@, own, depth);
    let s4 = s3 + optional_member("encrypted_key"@, bytes_json(encrypted_key));
    lemma_add_member_plain(s3, "encrypted_key"@, bytes_json(encrypted_key), depth);
    let s5 = s4 + optional_member("aad"@, bytes_json(aad));
    lemma_add_member_plain(s4, "aad"@, bytes_json(aad), depth);
    let v6 = Some(Json::String(base64url_chars(iv)));
    let s6 = s5 + optional_member("iv"@, v6);
    lemma_add_member_plain(s5, "iv"@, v6, depth);
    let v7 = Some(Json::String(base64url_chars(ciphertext)));
    let s7 = s6 + optional_member("ciphertext"@, v7);
    lemma_add_member_plain(s6, "ciphertext"@, v7, depth);
    let v8 = Some(Json::String(base64url_chars(tag)));
    let s8 = s7 + optional_member("tag"@, v8);
    lemma_add_member_plain(s7, "tag"@, v8, depth);
    assert(s8 =~= flattened_members(
        protected_text,
        unprotected,
        own,
        encrypted_key,
        aad,
        iv,
        ciphertext,
        tag,
    ));
}

/// The members of a flattened message that was written hold its parts: the
/// protected header as sent, the associated data as bound, the IV, the
/// ciphertext and the tag, and one recipient, for whom the three headers'
/// claims hold.
#[verifier::rlimit(40)]
pub proof fn lemma_flattened_parses(
    sent: Claims,
    json: Seq<u8>,
    unprotected: Option<Claims>,
    own: Option<Claims>,
    encrypted_key: Option<Seq<u8>>,
    aad: Option<Seq<u8>>,
    iv: Seq<u8>,
    ciphertext: Seq<u8>,
    tag: Seq<u8>,
)
    requires
        claims_parsed(json) == Some(sent),
        decodes_back(json),
        unprotected matches Some(c) ==> claims_ok(c),
        own matches Some(c) ==> claims_ok(c),
        !share_name(sent, claims_or_none(unprotected)),
        !share_name(sent + claims_or_none(unprotected), claims_or_none(own)),
        decodes_back_if_some(encrypted_key),
        decodes_back_if_some(aad),
        decodes_back(iv),
        decodes_back(ciphertext),
        decodes_back(tag),
    ensures
        members_parsed(
            flattened_members(
                base64url_chars(json),
                claims_json(unprotected),
                claims_json(own),
                encrypted_key,
                aad,
                iv,
                ciphertext,
                tag,
            ),
        ) == Ok::<SealedJson, JoseError>(
            SealedJson {
                aad: full_aad(base64url_text(json), aad_text(aad)),
                iv,
                ciphertext,
                tag,
                recipients: seq![
                    (sent + claims_or_none(unprotected) + claims_or_none(own), encrypted_key),
                ],
            },
        ),
{
    let m = flattened_members(
        base64url_chars(json),
        claims_json(unprotected),
        claims_json(own),
        encrypted_key,
        aad,
        iv,
        ciphertext,
        tag,
    );
    lemma_flattened_members(
        base64url_chars(json),
        claims_json(unprotected),
        claims_json(own),
        encrypted_key,
        aad,
        iv,
        ciphertext,
        tag,
    );
    assert(protected_parsed(m) == Ok::<(Seq<u8>, Claims), JoseError>((base64url_text(json), sent)));
    assert(member_claims(m, "unprotected"@) == Ok::<Claims, JoseError>(
        claims_or_none(unprotected),
    ));
    assert(aad_parsed(m) == Ok::<Option<Seq<u8>>, JoseError>(aad_text(aad)));
    assert(required_bytes(m, "iv"@) == Ok::<Seq<u8>, JoseError>(iv));
    assert(required_bytes(m, "ciphertext"@) == Ok::<Seq<u8>, JoseError>(ciphertext));
    assert(required_bytes(m, "tag"@) == Ok::<Seq<u8>, JoseError>(tag));
    let shared = sent + claims_or_none(unprotected);
    assert(member_claims(m, "header"@) == Ok::<Claims, JoseError>(claims_or_none(own)));
    assert(member_bytes(m, "encrypted_key"@) == Ok::<Option<Seq<u8>>, JoseError>(encrypted_key));
    assert(recipient_parsed(shared, m) == Ok::<SealedRecipient, JoseError>(
        (shared + claims_or_none(own), encrypted_key),
    ));
    assert(recipients_parsed(shared, m) == Ok::<Seq<SealedRecipient>, JoseError>(
        seq![(shared + claims_or_none(own), encrypted_key)],
    ));
}

/// The text of the protected header that may be absent, as a JSON string.
pub open spec fn protected_member(text: Option<Seq<char>>) -> Option<Json> {
    match text {
        Some(t) => Some(Json::String(t)),
        None => None,
    }
}

/// The entries of the recipients in the list of recipients.
pub open spec fn recipient_entries_of(sent: Seq<SealedRecipient>) -> Seq<Json> {
    Seq::new(sent.len(), |i: int| recipient_entry(sent[i]))
}

/// The members of a message in general JSON form are found under their
/// names, and no name occurs twice.
#[verifier::spinoff_prover]
#[verifier::rlimit(60)]
pub proof fn lemma_general_members(
    protected_text: Option<Seq<char>>,
    unprotected: Option<Json>,
    sent: Seq<SealedRecipient>,
    aad: Option<Seq<u8>>,
    iv: Seq<u8>,
    ciphertext: Seq<u8>,
    tag: Seq<u8>,
)
    ensures
        ({
            let m = general_members(protected_text, unprotected, sent, aad, iv, ciphertext, tag);
            &&& tidy(m)
            &&& lookup(m, "protected"@) == protected_member(protected_text)
            &&& lookup(m, "unprotected"@) == unprotected
            &&& lookup(m, "recipients"@) == Some(Json::Array(recipient_entries_of(sent)))
            &&& lookup(m, "aad"@) == bytes_json(aad)
            &&& lookup(m, "iv"@) == Some(Json::String(base64url_chars(iv)))
            &&& lookup(m, "ciphertext"@) == Some(Json::String(base64url_chars(ciphertext)))
            &&& lookup(m, "tag"@) == Some(Json::String(base64url_chars(tag)))
        }),
{
    lemma_member_names_differ();
    let s0 = Seq::<(Seq<char>, Json)>::empty();
    assert forall|name: Seq<char>| true implies #[trigger] lookup(s0, name) is None by {
        lemma_position_found(s0, name);
    }
    assert(tidy(s0)) by {
        reveal(tidy);
    }
    let v1 = protected_member(protected_text);
    let s1 = s0 + optional_member("protected"@, v1);
    lemma_add_member(s0, "protected"@, v1);
    assert(lookup(s1, "unprotected"@) == lookup(s0, "unprotected"@));
    let s2 = s1 + optional_member("unprotected"@, unprotected);
    lemma_add_member(s1, "unprotected"@, unprotected);
    assert(lookup(s2, "recipients"@) == lookup(s1, "recipients"@));
    assert(lookup(s1, "recipients"@) == lookup(s0, "recipients"@));
    let v3 = Some(Json::Array(recipient_entries_of(sent)));
    let s3 = s2 + optional_member("recipients"@, v3);
    lemma_add_member(s2, "recipients"@, v3);
    assert(lookup(s3, "aad"@) == lookup(s2, "aad"@));
    assert(lookup(s2, "aad"@) == lookup(s1, "aad"@));
    assert(lookup(s1, "aad"@) == lookup(s0, "aad"@));
    let s4 = s3 + optional_member("aad"@, bytes_json(aad));
    lemma_add_member(s3, "aad"@, bytes_json(aad));
    assert(lookup(s4, "iv"@) is None) by {
        assert(lookup(s4, "iv"@) == lookup(s3, "iv"@));
        assert(lookup(s3, "iv"@) == lookup(s2, "iv"@));
        assert(lookup(s2, "iv"@) == lookup(s1, "iv"@));
        assert(lookup(s1, "iv"@) == lookup(s0, "iv"@));
    }
    let v5 = Some(Json::String(base64url_chars(iv)));
    let s5 = s4 + optional_member("iv"@, v5);
    lemma_add_member(s4, "iv"@, v5);
    assert(lookup(s5, "ciphertext"@) is None) by {
        assert(lookup(s5, "ciphertext"@) == lookup(s4, "ciphertext"@));
        assert(lookup(s4, "ciphertext"@) == lookup(s3, "ciphertext"@));
        assert(lookup(s3, "ciphertext"@) == lookup(s2, "ciphertext"@));
        assert(lookup(s2, "ciphertext"@) == lookup(s1, "ciphertext"@));
        assert(lookup(s1, "ciphertext"@) == lookup(s0, "ciphertext"@));
    }
    let v6 = Some(Json::String(base64url_chars(ciphertext)));
    let s6 = s5 + optional_member("ciphertext"@, v6);
    lemma_add_member(s5, "ciphertext"@, v6);
    assert(lookup(s6, "tag"@) is None) by {
        assert(lookup(s6, "tag"@) == lookup(s5, "tag"@));
        assert(lookup(s5, "tag"@) == lookup(s4, "tag"@));
        assert(lookup(s4, "tag"@) == lookup(s3, "tag"@));
        assert(lookup(s3, "tag"@) == lookup(s2, "tag"@));
        assert(lookup(s2, "tag"@) == lookup(s1, "tag"@));
        assert(lookup(s1, "tag"@) == lookup(s0, "tag"@));
    }
    let v7 = Some(Json::String(base64url_chars(tag)));
    let s7 = s6 + optional_member("tag"@, v7);
    lemma_add_member(s6, "tag"@, v7);
    assert(lookup(s7, "protected"@) == lookup(s1, "protected"@)) by {
        assert(lookup(s2, "protected"@) == lookup(s1, "protected"@));
        assert(lookup(s3, "protected"@) == lookup(s2, "protected"@));
        assert(lookup(s4, "protected"@) == lookup(s3, "protected"@));
        assert(lookup(s5, "protected"@) == lookup(s4, "protected"@));
        assert(lookup(s6, "protected"@) == lookup(s5, "protected"@));
        assert(lookup(s7, "protected"@) == lookup(s6, "protected"@));
    }
    assert(lookup(s7, "unprotected"@) == lookup(s2, "unprotected"@)) by {
        assert(lookup(s3, "unprotected"@) == lookup(s2, "unprotected"@));
        assert(lookup(s4, "unprotected"@) == lookup(s3, "unprotected"@));
        assert(lookup(s5, "unprotected"@) == lookup(s4, "unprotected"@));
        assert(lookup(s6, "unprotected"@) == lookup(s5, "unprotected"@));
        assert(lookup(s7, "unprotected"@) == lookup(s6, "unprotected"@));
    }
    assert(lookup(s7, "recipients"@) == lookup(s3, "recipients"@)) by {
        assert(lookup(s4, "recipients"@) == lookup(s3, "recipients"@));
        assert(lookup(s5, "recipients"@) == lookup(s4, "recipients"@));
        assert(lookup(s6, "recipients"@) == lookup(s5, "recipients"@));
        assert(lookup(s7, "recipients"@) == lookup(s6, "recipients"@));
    }
    assert(lookup(s7, "aad"@) == lookup(s4, "aad"@)) by {
        assert(lookup(s5, "aad"@) == lookup(s4, "aad"@));
        assert(lookup(s6, "aad"@) == lookup(s5, "aad"@));
        assert(lookup(s7, "aad"@) == lookup(s6, "aad"@));
    }
    assert(lookup(s7, "iv"@) == lookup(s5, "iv"@)) by {
        assert(lookup(s6, "iv"@) == lookup(s5, "iv"@));
        assert(lookup(s7, "iv"@) == lookup(s6, "iv"@));
    }
    assert(lookup(s7, "ciphertext"@) == lookup(s6, "ciphertext"@));
    assert(s3 =~= s2 + seq![("recipients"@, Json::Array(recipient_entries_of(sent)))]);
    assert(s7 =~= general_members(protected_text, unprotected, sent, aad, iv, ciphertext, tag));
}

/// The values of the members of a message in general JSON form are plain
/// where the shared header and the list of recipients are.
pub proof fn lemma_general_plain(
    protected_text: Option<Seq<char>>,
    unprotected: Option<Json>,
    sent: Seq<SealedRecipient>,
    aad: Option<Seq<u8>>,
    iv: Seq<u8>,
    ciphertext: Seq<u8>,
    tag: Seq<u8>,
    depth: nat,
)
    requires
        unprotected matches Some(v) ==> json_plain(v, depth),
        json_plain(Json::Array(recipient_entries_of(sent)), depth),
    ensures
        all_plain(
            general_members(protected_text, unprotected, sent, aad, iv, ciphertext, tag),
            depth,
        ),
{
    let s0 = Seq::<(Seq<char>, Json)>::empty();
    assert(all_plain(s0, depth)) by {
        reveal(all_plain);
    }
    let v1 = protected_member(protected_text);
    let s1 = s0 + optional_member("protected"@, v1);
    lemma_add_member_plain(s0, "protected"@, v1, depth);
    let s2 = s1 + optional_member("unprotected"@, unprotected);
    lemma_add_member_plain(s1, "unprotected"@, unprotected, depth);
    let v3 = Some(Json::Array(recipient_entries_of(sent)));
    let s3 = s2 + optional_member("recipients"@, v3);
    lemma_add_member_plain(s2, "recipients"@, v3, depth);
    let s4 = s3 + optional_member("aad"@, bytes_json(aad));
    lemma_add_member_plain(s3, "aad"@, bytes_json(aad), depth);
    let v5 = Some(Json::String(base64url_chars(iv)));
    let s5 = s4 + optional_member("iv"@, v5);
    lemma_add_member_plain(s4, "iv"@, v5, depth);
    let v6 = Some(Json::String(base64url_chars(ciphertext)));
    let s6 = s5 + optional_member("ciphertext"@, v6);
    lemma_add_member_plain(s5, "ciphertext"@, v6, depth);
    let v7 = Some(Json::String(base64url_chars(tag)));
    let s7 = s6 + optional_member("tag"@, v7);
    lemma_add_member_plain(s6, "tag"@, v7, depth);
    assert(s3 =~= s2 + seq![("recipients"@, Json::Array(recipient_entries_of(sent)))]);
    assert(s7 =~= general_members(protected_text, unprotected, sent, aad, iv, ciphertext, tag));
}

/// The members of a recipient's entry are its header and its encrypted key.
#[verifier::rlimit(40)]
pub proof fn lemma_entry_members(sent: SealedRecipient)
    ensures
        recipient_entry(sent) matches Json::Object(m) && tidy(m) && lookup(m, "header"@) == Some(
            Json::Object(sent.0),
        ) && lookup(m, "encrypted_key"@) == bytes_json(sent.1),
{
    lemma_member_names_differ();
    let s0 = Seq::<(Seq<char>, Json)>::empty();
    assert forall|name: Seq<char>| true implies #[trigger] lookup(s0, name) is None by {
        lemma_position_found(s0, name);
    }
    assert(tidy(s0)) by {
        reveal(tidy);
    }
    let v1 = Some(Json::Object(sent.0));
    let s1 = s0 + optional_member("header"@, v1);
    lemma_add_member(s0, "header"@, v1);
    assert(lookup(s1, "encrypted_key"@) == lookup(s0, "encrypted_key"@));
    let s2 = s1 + optional_member("encrypted_key"@, bytes_json(sent.1));
    lemma_add_member(s1, "encrypted_key"@, bytes_json(sent.1));
    assert(lookup(s2, "header"@) == lookup(s1, "header"@));
    assert(s1 =~= seq![("header"@, Json::Object(sent.0))]);
}

/// A recipient's entry is as plain as its header, one level up.
pub proof fn lemma_entry_plain(sent: SealedRecipient, depth: nat)
    requires
        json_plain(Json::Object(sent.0), depth),
    ensures
        json_plain(recipient_entry(sent), depth + 1),
{
    lemma_entry_members(sent);
    let m = recipient_entry(sent)->Object_0;
    let s0 = Seq::<(Seq<char>, Json)>::empty();
    assert(all_plain(s0, depth)) by {
        reveal(all_plain);
    }
    let v1 = Some(Json::Object(sent.0));
    let s1 = s0 + optional_member("header"@, v1);
    lemma_add_member_plain(s0, "header"@, v1, depth);
    let s2 = s1 + optional_member("encrypted_key"@, bytes_json(sent.1));
    lemma_add_member_plain(s1, "encrypted_key"@, bytes_json(sent.1), depth);
    assert(s1 =~= seq![("header"@, Json::Object(sent.0))]);
    assert(m == s2);
    assert(json_plain(Json::Object(m), depth + 1)) by {
        reveal(all_plain);
        reveal(tidy);
    }
}

/// A recipient's entry holds the recipient: the shared claims with its own
/// behind them, and its encrypted key.
pub proof fn lemma_entry_parses(shared: Claims, sent: SealedRecipient)
    requires
        claims_ok(sent.0),
        !share_name(shared, sent.0),
        decodes_back_if_some(sent.1),
    ensures
        entry_parsed(shared, recipient_entry(sent)) == Ok::<SealedRecipient, JoseError>(
            (shared + sent.0, sent.1),
        ),
{
    lemma_entry_members(sent);
    let m = recipient_entry(sent)->Object_0;
    assert(member_claims(m, "header"@) == Ok::<Claims, JoseError>(sent.0));
    assert(member_bytes(m, "encrypted_key"@) == Ok::<Option<Seq<u8>>, JoseError>(sent.1));
}

/// What a recipient sees of the claims once the message is read: the shared
/// claims with its own behind them.
pub open spec fn recipients_read(shared: Claims, sent: Seq<SealedRecipient>) -> Seq<SealedRecipient> {
    Seq::new(sent.len(), |i: int| (shared + sent[i].0, sent[i].1))
}

/// The list of entries holds the recipients.
pub proof fn lemma_entries_parse(shared: Claims, sent: Seq<SealedRecipient>)
    requires
        forall|i: int|
            0 <= i < sent.len() ==> claims_ok((#[trigger] sent[i]).0) && !share_name(
                shared,
                sent[i].0,
            ) && decodes_back_if_some(sent[i].1),
    ensures
        entries_parsed(shared, recipient_entries_of(sent)) == Ok::<
            Seq<SealedRecipient>,
            JoseError,
        >(recipients_read(shared, sent)),
{
    let items = recipient_entries_of(sent);
    assert forall|i: int| 0 <= i < items.len() implies (#[trigger] entry_parsed(shared, items[i]))
        == Ok::<SealedRecipient, JoseError>((shared + sent[i].0, sent[i].1)) by {
        lemma_entry_parses(shared, sent[i]);
    }
    assert(entries_ok_until(shared, items, items.len() as int));
    assert(Seq::new(items.len(), |i: int| entry_parsed(shared, items[i])->Ok_0)
        =~= recipients_read(shared, sent));
}

/// The members of a message in general JSON form that was written hold its
/// parts: the protected header, where there is one, the associated data as
/// bound, the IV, the ciphertext and the tag, and the recipients, for each of
/// whom the protected, the shared and its own claims hold.
#[verifier::spinoff_prover]
#[verifier::rlimit(60)]
pub proof fn lemma_general_parses(
    protected: Option<Claims>,
    json: Option<Seq<u8>>,
    unprotected: Option<Claims>,
    sent: Seq<SealedRecipient>,
    aad: Option<Seq<u8>>,
    iv: Seq<u8>,
    ciphertext: Seq<u8>,
    tag: Seq<u8>,
)
    requires
        protected is Some <==> json is Some,
        protected matches Some(p) ==> claims_parsed(json->0) == Some(p) && decodes_back(json->0),
        unprotected matches Some(c) ==> claims_ok(c),
        !share_name(claims_or_none(protected), claims_or_none(unprotected)),
        forall|i: int|
            0 <= i < sent.len() ==> claims_ok((#[trigger] sent[i]).0) && !share_name(
                claims_or_none(protected) + claims_or_none(unprotected),
                sent[i].0,
            ) && decodes_back_if_some(sent[i].1),
        decodes_back_if_some(aad),
        decodes_back(iv),
        decodes_back(ciphertext),
        decodes_back(tag),
    ensures
        members_parsed(
            general_members(
                protected_chars(json),
                claims_json(unprotected),
                sent,
                aad,
                iv,
                ciphertext,
                tag,
            ),
        ) == Ok::<SealedJson, JoseError>(
            SealedJson {
                aad: full_aad(protected_bound(json), aad_text(aad)),
                iv,
                ciphertext,
                tag,
                recipients: recipients_read(
                    claims_or_none(protected) + claims_or_none(unprotected),
                    sent,
                ),
            },
        ),
{
    let m = general_members(
        protected_chars(json),
        claims_json(unprotected),
        sent,
        aad,
        iv,
        ciphertext,
        tag,
    );
    lemma_general_members(
        protected_chars(json),
        claims_json(unprotected),
        sent,
        aad,
        iv,
        ciphertext,
        tag,
    );
    let shared = claims_or_none(protected) + claims_or_none(unprotected);
    assert(protected_parsed(m) == Ok::<(Seq<u8>, Claims), JoseError>(
        (protected_bound(json), claims_or_none(protected)),
    ));
    assert(member_claims(m, "unprotected"@) == Ok::<Claims, JoseError>(
        claims_or_none(unprotected),
    ));
    assert(aad_parsed(m) == Ok::<Option<Seq<u8>>, JoseError>(aad_text(aad)));
    assert(required_bytes(m, "iv"@) == Ok::<Seq<u8>, JoseError>(iv));
    assert(required_bytes(m, "ciphertext"@) == Ok::<Seq<u8>, JoseError>(ciphertext));
    assert(required_bytes(m, "tag"@) == Ok::<Seq<u8>, JoseError>(tag));
    lemma_entries_parse(shared, sent);
    assert(recipients_parsed(shared, m) == Ok::<Seq<SealedRecipient>, JoseError>(
        recipients_read(shared, sent),
    ));
}

/// Every recipient's own header is plain enough to stand in the list of
/// recipients of a message.
pub open spec fn recipients_plain(sent: Seq<SealedRecipient>) -> bool {
    forall|i: int|
        0 <= i < sent.len() ==> json_plain(
            Json::Object((#[trigger] sent[i]).0),
            (plain_depth() - 3) as nat,
        )
}

/// The list of recipients is plain where every recipient's header is.
pub proof fn lemma_entries_plain(sent: Seq<SealedRecipient>)
    requires
        recipients_plain(sent),
    ensures
        json_plain(
            Json::Array(recipient_entries_of(sent)),
            (plain_depth() - 1) as nat,
        ),
{
    let items = recipient_entries_of(sent);
    let depth = (plain_depth() - 3) as nat;
    assert forall|k: int| 0 <= k < items.len() implies json_plain(
        #[trigger] items[k],
        depth + 1,
    ) by {
        lemma_entry_plain(sent[k], depth);
    }
}

/// The text written for the members of a flattened message reads back as
/// the message.
#[verifier::spinoff_prover]
#[verifier::rlimit(60)]
pub proof fn lemma_flattened_sealed(
    text: Seq<u8>,
    written: Members,
    sent: Claims,
    json: Seq<u8>,
    unprotected: Option<&JweHeader>,
    own: Option<&JweHeader>,
    encrypted_key: Option<Seq<u8>>,
    aad: Option<Seq<u8>>,
    iv: Seq<u8>,
    ciphertext: Seq<u8>,
    tag: Seq<u8>,
)
    requires
        json_plain(Json::Object(written), plain_depth()) ==> json_parsed(text) == Some(
            Json::Object(written),
        ),
        written == flattened_members(
            base64url_chars(json),
            header_json(unprotected),
            header_json(own),
            encrypted_key,
            aad,
            iv,
            ciphertext,
            tag,
        ),
        claims_plain(sent) ==> claims_parsed(json) == Some(sent),
        decodes_back(json),
        decodes_back_if_some(encrypted_key),
        decodes_back_if_some(aad),
        decodes_back(iv),
        decodes_back(ciphertext),
        decodes_back(tag),
    ensures
        claims_plain(sent) && nested_plain(unprotected) && nested_plain(own) && (
        unprotected matches Some(h) ==> h.wf()) && (own matches Some(h) ==> h.wf())
            && !share_name(sent, header_view(unprotected)) && !share_name(
            sent + header_view(unprotected),
            header_view(own),
        ) ==> json_message_parsed(text) == Ok::<SealedJson, JoseError>(
            SealedJson {
                aad: full_aad(base64url_text(json), aad_text(aad)),
                iv,
                ciphertext,
                tag,
                recipients: seq![
                    (sent + header_view(unprotected) + header_view(own), encrypted_key),
                ],
            },
        ),
{
    if claims_plain(sent) && nested_plain(unprotected) && nested_plain(own) && (
    unprotected matches Some(h) ==> h.wf()) && (own matches Some(h) ==> h.wf()) && !share_name(
        sent,
        header_view(unprotected),
    ) && !share_name(sent + header_view(unprotected), header_view(own)) {
        let u = match unprotected {
            Some(h) => Some(h@),
            None => None,
        };
        let o = match own {
            Some(h) => Some(h@),
            None => None,
        };
        assert(header_json(unprotected) == claims_json(u));
        assert(header_json(own) == claims_json(o));
        assert(header_view(unprotected) == claims_or_none(u));
        assert(header_view(own) == claims_or_none(o));
        let depth = (plain_depth() - 1) as nat;
        lemma_flattened_members(
            base64url_chars(json),
            header_json(unprotected),
            header_json(own),
            encrypted_key,
            aad,
            iv,
            ciphertext,
            tag,
        );
        lemma_flattened_plain(
            base64url_chars(json),
            header_json(unprotected),
            header_json(own),
            encrypted_key,
            aad,
            iv,
            ciphertext,
            tag,
            depth,
        );
        assert(json_plain(Json::Object(written), plain_depth())) by {
            reveal(all_plain);
            reveal(tidy);
        }
        lemma_flattened_parses(sent, json, u, o, encrypted_key, aad, iv, ciphertext, tag);
    }
}

/// The text written for the members of a message in general JSON form reads
/// back as the message.
#[verifier::spinoff_prover]
#[verifier::rlimit(60)]
pub proof fn lemma_general_sealed(
    text: Seq<u8>,
    written: Members,
    protected: Option<&JweHeader>,
    json: Option<Seq<u8>>,
    unprotected: Option<&JweHeader>,
    sent: Seq<SealedRecipient>,
    aad: Option<Seq<u8>>,
    iv: Seq<u8>,
    ciphertext: Seq<u8>,
    tag: Seq<u8>,
)
    requires
        json_plain(Json::Object(written), plain_depth()) ==> json_parsed(text) == Some(
            Json::Object(written),
        ),
        written == general_members(
            protected_chars(json),
            header_json(unprotected),
            sent,
            aad,
            iv,
            ciphertext,
            tag,
        ),
        protected is Some <==> json is Some,
        protected matches Some(h) ==> decodes_back(json->0) && (claims_plain(h@) ==> claims_parsed(
            json->0,
        ) == Some(h@)),
        forall|i: int| 0 <= i < sent.len() ==> decodes_back_if_some((#[trigger] sent[i]).1),
        decodes_back_if_some(aad),
        decodes_back(iv),
        decodes_back(ciphertext),
        decodes_back(tag),
    ensures
        general_premises(protected, unprotected, sent) ==> json_message_parsed(text) == Ok::<
            SealedJson,
            JoseError,
        >(
            SealedJson {
                aad: full_aad(protected_bound(json), aad_text(aad)),
                iv,
                ciphertext,
                tag,
                recipients: recipients_read(
                    header_view(protected) + header_view(unprotected),
                    sent,
                ),
            },
        ),
{
    if general_premises(protected, unprotected, sent) {
        let p = match protected {
            Some(h) => Some(h@),
            None => None,
        };
        let u = match unprotected {
            Some(h) => Some(h@),
            None => None,
        };
        assert(header_json(unprotected) == claims_json(u));
        assert(header_view(unprotected) == claims_or_none(u));
        assert(header_view(protected) == claims_or_none(p));
        let depth = (plain_depth() - 1) as nat;
        lemma_general_members(
            protected_chars(json),
            header_json(unprotected),
            sent,
            aad,
            iv,
            ciphertext,
            tag,
        );
        lemma_entries_plain(sent);
        lemma_general_plain(
            protected_chars(json),
            header_json(unprotected),
            sent,
            aad,
            iv,
            ciphertext,
            tag,
            depth,
        );
        assert(json_plain(Json::Object(written), plain_depth())) by {
            reveal(all_plain);
            reveal(tidy);
        }
        lemma_general_parses(p, json, u, sent, aad, iv, ciphertext, tag);
    }
}

/// What wrapping a key writes into a header leaves the header in order.
#[verifier::rlimit(40)]
pub proof fn lemma_wrapped_ok(
    holder: Keyed,
    cek: Seq<u8>,
    nonce: Seq<u8>,
    asked: Claims,
    claims: Claims,
)
    requires
        claims_ok(claims),
        key_wrapped_for(holder, cek, nonce, asked, claims) is Ok,
    ensures
        claims_ok(key_wrapped_for(holder, cek, nonce, asked, claims)->Ok_0.1),
{
    lemma_parameter_names();
    match holder.algorithm {
        crate::alg::JweAlgorithm::Aesgcmkw(_) => {
            let iv_text = Json::String(crate::base64url::base64url_chars(nonce));
            lemma_with_claim(claims, "iv"@, iv_text);
            let first = with_claim(claims, "iv"@, iv_text);
            let (c, t) = crate::crypto::aes_gcm_sealed(holder.key, nonce, Seq::empty(), cek)->0;
            lemma_with_claim(first, "tag"@, Json::String(crate::base64url::base64url_chars(t)));
        },
        crate::alg::JweAlgorithm::Pbes2HmacAeskw(_) => {
            let salt_text = Json::String(crate::base64url::base64url_chars(nonce));
            lemma_with_claim(claims, "p2s"@, salt_text);
            let first = with_claim(claims, "p2s"@, salt_text);
            lemma_with_claim(first, "p2c"@, Json::Integer(holder.iterations as int));
        },
        crate::alg::JweAlgorithm::EcdhEs(_) => {
            lemma_with_claim(claims, "epk"@, crate::agreement::epk_of(nonce)->0);
        },
        _ => {},
    }
}

/// A name that is found in one of two lists that share no name is not found
/// in the other.
pub proof fn lemma_not_shared(a: Claims, b: Claims, name: Seq<char>)
    requires
        !share_name(a, b),
        lookup(b, name) is Some,
    ensures
        lookup(a, name) is None,
{
    crate::header::lemma_lookup_is_membership(a, name);
    crate::header::lemma_lookup_is_membership(b, name);
    if lookup(a, name) is Some {
        let i = choose|i: int| 0 <= i < a.len() && (#[trigger] a[i]).0 == name;
        let j = choose|j: int| 0 <= j < b.len() && (#[trigger] b[j]).0 == name;
        assert(a[i].0 == b[j].0);
    }
}

/// A recipient of a message in JSON form, whose header was sealed for an
/// encrypter, opens under a decrypter that goes with the encrypter.
#[verifier::spinoff_prover]
#[verifier::rlimit(60)]
pub proof fn lemma_recipient_opens(
    m: SealedJson,
    i: int,
    shared: Claims,
    own: Claims,
    holder: Keyed,
    nonce: Seq<u8>,
    cek: Seq<u8>,
    enc: JweContentEncryption,
    zip: bool,
    decrypter: Keyed,
    acceptable: Seq<Seq<char>>,
    payload: Seq<u8>,
)
    requires
        claims_ok(own),
        0 <= i < m.recipients.len(),
        recipient_sent(shared, own, holder, enc, zip, cek, nonce) matches Ok(sent)
            && m.recipients[i] == (shared + sent.0, sent.1) && criticals_accepted(
            shared + sent.0,
            acceptable,
        ) && goes_with(decrypter, holder, shared + sent.0),
        unwraps_back(holder, cek, nonce, shared + own, own),
        sealed_for(holder, cek, nonce),
        derived_as(holder, cek, nonce, shared + own),
        content_recovered(recipient_sealed(m, i), enc, zip, cek) == Ok::<Seq<u8>, JoseError>(
            payload,
        ),
        cek.len() == enc.spec_key_len(),
    ensures
        recipient_opened(m, i, decrypter, acceptable) == Ok::<Seq<u8>, JoseError>(payload),
{
    lemma_names_differ();
    lemma_parameter_names();
    let (encrypted_key, wrapped) = key_wrapped_for(holder, cek, nonce, shared + own, own)->Ok_0;
    let sent = header_sealed(wrapped, shared + own, holder);
    lemma_wrapped_ok(holder, cek, nonce, shared + own, own);
    let identified = match holder.key_id {
        Some(id) => if lookup(shared + own, "kid"@) is None {
            with_claim(wrapped, "kid"@, Json::String(id))
        } else {
            wrapped
        },
        None => wrapped,
    };
    if holder.key_id is Some && lookup(shared + own, "kid"@) is None {
        lemma_with_claim(wrapped, "kid"@, Json::String(holder.key_id->0));
    }
    lemma_sent_keeps(own, shared + own, wrapped, identified, sent, holder, cek, nonce);
    let whole = shared + sent;
    crate::json::lemma_lookup_concat(shared, sent, "enc"@);
    crate::json::lemma_lookup_concat(shared, own, "enc"@);
    crate::json::lemma_lookup_concat(shared, sent, "zip"@);
    crate::json::lemma_lookup_concat(shared, own, "zip"@);
    crate::json::lemma_lookup_concat(shared, sent, "alg"@);
    crate::json::lemma_lookup_concat(shared, sent, "iv"@);
    crate::json::lemma_lookup_concat(shared, sent, "tag"@);
    crate::json::lemma_lookup_concat(shared, sent, "p2s"@);
    crate::json::lemma_lookup_concat(shared, sent, "p2c"@);
    crate::json::lemma_lookup_concat(shared, sent, "epk"@);
    crate::json::lemma_lookup_concat(shared, sent, "apu"@);
    crate::json::lemma_lookup_concat(shared, own, "apu"@);
    crate::json::lemma_lookup_concat(shared, sent, "apv"@);
    crate::json::lemma_lookup_concat(shared, own, "apv"@);
    if lookup(sent, "epk"@) is Some {
        lemma_not_shared(shared, sent, "epk"@);
    }
    lemma_not_shared(shared, sent, "alg"@);
    if lookup(sent, "iv"@) is Some {
        lemma_not_shared(shared, sent, "iv"@);
    }
    if lookup(sent, "tag"@) is Some {
        lemma_not_shared(shared, sent, "tag"@);
    }
    if lookup(sent, "p2s"@) is Some {
        lemma_not_shared(shared, sent, "p2s"@);
    }
    if lookup(sent, "p2c"@) is Some {
        lemma_not_shared(shared, sent, "p2c"@);
    }
    assert(chosen_encryption(whole) == Ok::<JweContentEncryption, JoseError>(enc));
    assert(chosen_compression(whole) == Ok::<bool, JoseError>(zip));
    assert(lookup_text(whole, "alg"@) == Some(holder.algorithm.spec_name()));
    assert(pairs(decrypter, holder));
    assert(reads_alike(holder.algorithm, whole, shared + own, wrapped));
    assert(key_unwrapped(decrypter, encrypted_key, whole) == Ok::<Seq<u8>, JoseError>(cek));
    let one = recipient_sealed(m, i);
    assert(one.claims == whole);
    assert(one.encrypted_key == encrypted_key);
    assert(message_opened(one, decrypter, acceptable) == Ok::<Seq<u8>, JoseError>(payload));
}

/// A message in general JSON form that was sealed opens back for each of its
/// recipients.
#[verifier::spinoff_prover]
#[verifier::rlimit(60)]
pub proof fn lemma_general_round_trip(
    text: Seq<u8>,
    payload: Seq<u8>,
    protected: Option<&JweHeader>,
    unprotected: Option<&JweHeader>,
    recipients: Seq<Addressee>,
    seed: Seq<u8>,
    nonces: Seq<Seq<u8>>,
    acceptable: Seq<Seq<char>>,
    enc: JweContentEncryption,
    zip: bool,
    cek: Seq<u8>,
    sent: Seq<SealedRecipient>,
)
    requires
        addressees_wf(recipients),
        recipients.len() >= 1,
        nonces.len() == recipients.len(),
        recipients.len() > 1 ==> !some_derives(recipients),
        headers_merged(
            header_view(protected),
            header_view(unprotected),
            header_view(recipients[0].0),
        ) matches Ok(first) && chosen_encryption(first) == Ok::<JweContentEncryption, JoseError>(
            enc,
        ) && chosen_compression(first) == Ok::<bool, JoseError>(zip) && content_key(
            recipients[0].1@,
            enc,
            seed,
            nonces[0],
            first,
        ) == Ok::<Seq<u8>, JoseError>(cek),
        recipients_sent(
            header_view(protected) + header_view(unprotected),
            recipients,
            nonces,
            enc,
            zip,
            cek,
        ) == Ok::<Seq<SealedRecipient>, JoseError>(sent),
        forall|k: int|
            0 <= k < recipients.len() ==> unwraps_back(
                (#[trigger] recipients[k]).1@,
                cek,
                nonces[k],
                header_view(protected) + header_view(unprotected) + header_view(recipients[k].0),
                header_view(recipients[k].0),
            ),
        cek.len() == enc.spec_key_len(),
        general_premises(protected, unprotected, sent) ==> (json_message_parsed(text) matches Ok(
            m,
        ) && m.recipients == recipients_read(
            header_view(protected) + header_view(unprotected),
            sent,
        ) && content_recovered(recipient_sealed(m, 0), enc, zip, cek) == Ok::<Seq<u8>, JoseError>(
            payload,
        )),
    ensures
        general_opens_back(
            text,
            payload,
            protected,
            unprotected,
            recipients,
            seed,
            nonces,
            acceptable,
        ),
{
    let shared = header_view(protected) + header_view(unprotected);
    let n = recipients.len() as int;
    assert(general_sent(protected, unprotected, recipients, seed, nonces) == Ok::<
        Seq<SealedRecipient>,
        JoseError,
    >(sent));
    assert(all_sent_until(shared, recipients, nonces, n, enc, zip, cek));
    assert(sent.len() == n);
    assert forall|i: int, decrypter: Keyed|
        0 <= i < sent.len() && general_premises(protected, unprotected, sent) && criticals_accepted(
            shared + sent[i].0,
            acceptable,
        ) && sealed_for(recipients[i].1@, seed, nonces[i]) && #[trigger] goes_with(
            decrypter,
            recipients[i].1@,
            shared + sent[i].0,
        ) implies (json_message_parsed(text) matches Ok(m) && m.recipients == recipients_read(
        shared,
        sent,
    ) && recipient_opened(m, i, decrypter, acceptable) == Ok::<Seq<u8>, JoseError>(payload)) by {
        let m = json_message_parsed(text)->Ok_0;
        let holder = recipients[i].1@;
        let own = header_view(recipients[i].0);
        assert(addressee_sent(shared, recipients, nonces, i, enc, zip, cek) is Ok);
        assert(sent[i] == addressee_sent(shared, recipients, nonces, i, enc, zip, cek)->Ok_0);
        assert(m.recipients[i] == (shared + sent[i].0, sent[i].1));
        assert(unwraps_back(holder, cek, nonces[i], shared + own, own));
        assert(content_recovered(recipient_sealed(m, i), enc, zip, cek) == content_recovered(
            recipient_sealed(m, 0),
            enc,
            zip,
            cek,
        ));
        if holder.algorithm.spec_derives_key() {
            assert(recipients[i].1@.algorithm.spec_derives_key());
            assert(i == 0);
            assert(derived_as(holder, cek, nonces[i], shared + own));
        }
        if holder.algorithm is Rsaes {
            if i != 0 {
                assert(!recipients[0].1@.algorithm.spec_derives_key());
            }
            assert(cek == seed);
        }
        assert(sealed_for(holder, cek, nonces[i]));
        lemma_recipient_opens(
            m,
            i,
            shared,
            own,
            holder,
            nonces[i],
            cek,
            enc,
            zip,
            decrypter,
            acceptable,
            payload,
        );
    }
}

/// A compact message that was sealed for an encrypter opens back.
#[verifier::spinoff_prover]
#[verifier::rlimit(60)]
pub proof fn lemma_compact_round_trip(
    text: Seq<u8>,
    payload: Seq<u8>,
    header: Claims,
    wrapped: Claims,
    identified: Claims,
    sent: Claims,
    holder: Keyed,
    acceptable: Seq<Seq<char>>,
    enc: JweContentEncryption,
    zip: bool,
    cek: Seq<u8>,
    nonce: Seq<u8>,
    encrypted_key: Option<Seq<u8>>,
)
    requires
        claims_ok(header),
        claims_ok(wrapped),
        claims_ok(identified),
        key_wrapped(holder, cek, nonce, header) == Ok::<(Option<Seq<u8>>, Claims), JoseError>(
            (encrypted_key, wrapped),
        ),
        identified == (match holder.key_id {
            Some(id) => if lookup(header, "kid"@) is None {
                with_claim(wrapped, "kid"@, Json::String(id))
            } else {
                wrapped
            },
            None => wrapped,
        }),
        sent == header_sealed(wrapped, header, holder),
        chosen_encryption(header) == Ok::<JweContentEncryption, JoseError>(enc),
        chosen_compression(header) == Ok::<bool, JoseError>(zip),
        recovered_by_pairs(holder, encrypted_key, header, wrapped, cek),
        cek.len() == enc.spec_key_len(),
        claims_plain(sent) ==> (crate::message::compact_parsed(text) matches Ok(m) && m.claims
            == sent && m.encrypted_key == encrypted_key && content_recovered(m, enc, zip, cek)
            == Ok::<Seq<u8>, JoseError>(payload)),
    ensures
        crate::sealing::opens_back(text, payload, sent, holder, acceptable),
{
    assert forall|decrypter: Keyed|
        claims_plain(sent) && criticals_accepted(sent, acceptable) && #[trigger] goes_with(
            decrypter,
            holder,
            sent,
        ) implies crate::message::compact_opened(text, decrypter, acceptable) == Ok::<
        (Seq<u8>, Claims),
        JoseError,
    >((payload, sent)) by {
        lemma_names_differ();
        lemma_parameter_names();
        lemma_sent_keeps(header, header, wrapped, identified, sent, holder, cek, nonce);
        let m = crate::message::compact_parsed(text)->Ok_0;
        assert(pairs(decrypter, holder));
        assert(chosen_encryption(sent) == Ok::<JweContentEncryption, JoseError>(enc));
        assert(chosen_compression(sent) == Ok::<bool, JoseError>(zip));
        assert(reads_alike(holder.algorithm, sent, header, wrapped));
        assert(key_unwrapped(decrypter, encrypted_key, sent) == Ok::<Seq<u8>, JoseError>(cek));
        assert(message_opened(m, decrypter, acceptable) == Ok::<Seq<u8>, JoseError>(payload));
    }
}

/// A flattened message that was sealed for an encrypter opens back.
#[verifier::spinoff_prover]
#[verifier::rlimit(60)]
pub proof fn lemma_flattened_round_trip(
    text: Seq<u8>,
    payload: Seq<u8>,
    protected: Option<&JweHeader>,
    unprotected: Option<&JweHeader>,
    own: Option<&JweHeader>,
    wrapped: Claims,
    identified: Claims,
    sent: Claims,
    holder: Keyed,
    acceptable: Seq<Seq<char>>,
    enc: JweContentEncryption,
    zip: bool,
    cek: Seq<u8>,
    nonce: Seq<u8>,
    encrypted_key: Option<Seq<u8>>,
)
    requires
        protected matches Some(h) ==> h.wf(),
        unprotected matches Some(h) ==> h.wf(),
        own matches Some(h) ==> h.wf(),
        claims_ok(wrapped),
        claims_ok(identified),
        headers_merged(header_view(protected), header_view(unprotected), header_view(own)) is Ok,
        key_wrapped_for(
            holder,
            cek,
            nonce,
            header_view(protected) + header_view(unprotected) + header_view(own),
            header_view(protected),
        ) == Ok::<(Option<Seq<u8>>, Claims), JoseError>((encrypted_key, wrapped)),
        identified == (match holder.key_id {
            Some(id) => if lookup(
                header_view(protected) + header_view(unprotected) + header_view(own),
                "kid"@,
            ) is None {
                with_claim(wrapped, "kid"@, Json::String(id))
            } else {
                wrapped
            },
            None => wrapped,
        }),
        sent == header_sealed(
            wrapped,
            header_view(protected) + header_view(unprotected) + header_view(own),
            holder,
        ),
        chosen_encryption(header_view(protected) + header_view(unprotected) + header_view(own))
            == Ok::<JweContentEncryption, JoseError>(enc),
        chosen_compression(header_view(protected) + header_view(unprotected) + header_view(own))
            == Ok::<bool, JoseError>(zip),
        !share_name(sent, header_view(unprotected)),
        !share_name(sent, header_view(own)),
        claims_plain(sent) && nested_plain(unprotected) && nested_plain(own) && !share_name(
            sent + header_view(unprotected),
            header_view(own),
        ) ==> (json_message_parsed(text) matches Ok(m) && m.recipients == seq![
            (sent + header_view(unprotected) + header_view(own), encrypted_key),
        ] && content_recovered(recipient_sealed(m, 0), enc, zip, cek) == Ok::<Seq<u8>, JoseError>(
            payload,
        )),
        recovered_by_pairs(
            holder,
            encrypted_key,
            header_view(protected) + header_view(unprotected) + header_view(own),
            wrapped,
            cek,
        ),
        cek.len() == enc.spec_key_len(),
    ensures
        opens_back_json(text, payload, sent, unprotected, own, holder, acceptable),
{
    let p = header_view(protected);
    let u = header_view(unprotected);
    let o = header_view(own);
    crate::header::lemma_share_name_concat(sent, u, o);
    crate::header::lemma_share_name_concat(p, u, o);
    assert(!share_name(sent + u, o)) by {
        crate::header::lemma_share_name_concat(sent, u, o);
        crate::header::lemma_share_name_concat(p, u, o);
    }
    assert forall|decrypter: Keyed|
        claims_plain(sent) && nested_plain(unprotected) && nested_plain(own) && criticals_accepted(
            sent + u + o,
            acceptable,
        ) && #[trigger] goes_with(decrypter, holder, sent + u + o) implies json_opened(
        text,
        decrypter,
        acceptable,
    ) == Ok::<(Seq<u8>, Claims), JoseError>((payload, sent + u + o)) by {
        let m = json_message_parsed(text)->Ok_0;
        assert(json_message_parsed(text) == Ok::<SealedJson, JoseError>(m));
        assert(sent + u + o =~= sent + (u + o));
        assert(p + u + o =~= p + (u + o));
        lemma_flattened_opens(
            m,
            p,
            u + o,
            wrapped,
            identified,
            sent,
            holder,
            decrypter,
            acceptable,
            enc,
            zip,
            cek,
            nonce,
            encrypted_key,
            payload,
        );
    }
}

/// A message in JSON form with one recipient, whose header was sealed for an
/// encrypter, opens under a decrypter that goes with the encrypter.
#[verifier::spinoff_prover]
#[verifier::rlimit(60)]
pub proof fn lemma_flattened_opens(
    m: SealedJson,
    base: Claims,
    rest: Claims,
    wrapped: Claims,
    identified: Claims,
    sent: Claims,
    holder: Keyed,
    decrypter: Keyed,
    acceptable: Seq<Seq<char>>,
    enc: JweContentEncryption,
    zip: bool,
    cek: Seq<u8>,
    nonce: Seq<u8>,
    encrypted_key: Option<Seq<u8>>,
    payload: Seq<u8>,
)
    requires
        claims_ok(base),
        claims_ok(wrapped),
        claims_ok(identified),
        key_wrapped_for(holder, cek, nonce, base + rest, base) == Ok::<
            (Option<Seq<u8>>, Claims),
            JoseError,
        >((encrypted_key, wrapped)),
        identified == (match holder.key_id {
            Some(id) => if lookup(base + rest, "kid"@) is None {
                with_claim(wrapped, "kid"@, Json::String(id))
            } else {
                wrapped
            },
            None => wrapped,
        }),
        sent == header_sealed(wrapped, base + rest, holder),
        chosen_encryption(base + rest) == Ok::<JweContentEncryption, JoseError>(enc),
        chosen_compression(base + rest) == Ok::<bool, JoseError>(zip),
        m.recipients == seq![(sent + rest, encrypted_key)],
        content_recovered(recipient_sealed(m, 0), enc, zip, cek) == Ok::<Seq<u8>, JoseError>(
            payload,
        ),
        recovered_by_pairs(holder, encrypted_key, base + rest, wrapped, cek),
        cek.len() == enc.spec_key_len(),
        criticals_accepted(sent + rest, acceptable),
        goes_with(decrypter, holder, sent + rest),
    ensures
        json_message_opened(m, decrypter, acceptable) == Ok::<(Seq<u8>, Claims), JoseError>(
            (payload, sent + rest),
        ),
{
    lemma_names_differ();
    lemma_parameter_names();
    lemma_sent_keeps(base, base + rest, wrapped, identified, sent, holder, cek, nonce);
    let whole = sent + rest;
    crate::json::lemma_lookup_concat(sent, rest, "enc"@);
    crate::json::lemma_lookup_concat(base, rest, "enc"@);
    crate::json::lemma_lookup_concat(sent, rest, "zip"@);
    crate::json::lemma_lookup_concat(base, rest, "zip"@);
    crate::json::lemma_lookup_concat(sent, rest, "alg"@);
    crate::json::lemma_lookup_concat(sent, rest, "iv"@);
    crate::json::lemma_lookup_concat(sent, rest, "tag"@);
    crate::json::lemma_lookup_concat(sent, rest, "p2s"@);
    crate::json::lemma_lookup_concat(sent, rest, "p2c"@);
    crate::json::lemma_lookup_concat(sent, rest, "epk"@);
    crate::json::lemma_lookup_concat(sent, rest, "apu"@);
    crate::json::lemma_lookup_concat(base, rest, "apu"@);
    crate::json::lemma_lookup_concat(sent, rest, "apv"@);
    crate::json::lemma_lookup_concat(base, rest, "apv"@);
    assert(chosen_encryption(whole) == Ok::<JweContentEncryption, JoseError>(enc));
    assert(chosen_compression(whole) == Ok::<bool, JoseError>(zip));
    assert(lookup_text(whole, "alg"@) == Some(holder.algorithm.spec_name()));
    assert(pairs(decrypter, holder));
    assert(reads_alike(holder.algorithm, whole, base + rest, wrapped));
    assert(key_unwrapped(decrypter, encrypted_key, whole) == Ok::<Seq<u8>, JoseError>(cek));
    let one = recipient_sealed(m, 0);
    assert(one.claims == whole);
    assert(one.encrypted_key == encrypted_key);
    assert(message_opened(one, decrypter, acceptable) == Ok::<Seq<u8>, JoseError>(payload));
    assert(recipient_opened(m, 0, decrypter, acceptable) == Ok::<Seq<u8>, JoseError>(payload));
    assert(!crate::json_form::none_opens_until(m, decrypter, acceptable, 1));
    let i = choose|i: int|
        0 <= i < 1 && (#[trigger] recipient_opened(m, i, decrypter, acceptable)) is Ok
            && crate::json_form::none_opens_until(m, decrypter, acceptable, i);
    assert(crate::json_form::none_opens_until(m, decrypter, acceptable, 0));
    assert(i == 0);
}

/// What wrapping writes into the header, and the key identifier and the
/// algorithm written after it, leave the claims that the engine reads as they
/// were, and the parameters where the wrapping put them.
#[verifier::rlimit(40)]
pub proof fn lemma_sent_keeps(
    header: Claims,
    asked: Claims,
    wrapped: Claims,
    identified: Claims,
    sent: Claims,
    holder: Keyed,
    cek: Seq<u8>,
    nonce: Seq<u8>,
)
    requires
        claims_ok(header),
        key_wrapped_for(holder, cek, nonce, asked, header) matches Ok((_, w)) && w == wrapped,
        sent == header_sealed(wrapped, asked, holder),
        identified == (match holder.key_id {
            Some(id) => if lookup(asked, "kid"@) is None {
                with_claim(wrapped, "kid"@, Json::String(id))
            } else {
                wrapped
            },
            None => wrapped,
        }),
        claims_ok(wrapped),
        claims_ok(identified),
    ensures
        lookup(sent, "enc"@) == lookup(header, "enc"@),
        lookup(sent, "zip"@) == lookup(header, "zip"@),
        lookup_text(sent, "alg"@) == Some(holder.algorithm.spec_name()),
        lookup(sent, "iv"@) == lookup(wrapped, "iv"@),
        lookup(sent, "tag"@) == lookup(wrapped, "tag"@),
        lookup(sent, "p2s"@) == lookup(wrapped, "p2s"@),
        lookup(sent, "p2c"@) == lookup(wrapped, "p2c"@),
        lookup(sent, "epk"@) == lookup(wrapped, "epk"@),
        lookup(sent, "apu"@) == lookup(header, "apu"@),
        lookup(sent, "apv"@) == lookup(header, "apv"@),
        holder.algorithm is Aesgcmkw ==> lookup(wrapped, "iv"@) is Some && lookup(wrapped, "tag"@)
            is Some,
        holder.algorithm is Pbes2HmacAeskw ==> lookup(wrapped, "p2s"@) is Some && lookup(
            wrapped,
            "p2c"@,
        ) is Some,
        holder.algorithm is EcdhEs ==> lookup(wrapped, "epk"@) is Some,
{
    lemma_names_differ();
    lemma_parameter_names();
    lemma_party_names();
    lemma_with_claim(identified, "alg"@, Json::String(holder.algorithm.spec_name()));
    if holder.key_id is Some && lookup(asked, "kid"@) is None {
        lemma_with_claim(wrapped, "kid"@, Json::String(holder.key_id->0));
    }
    match holder.algorithm {
        crate::alg::JweAlgorithm::Aesgcmkw(_) => {
            let iv_text = Json::String(crate::base64url::base64url_chars(nonce));
            lemma_with_claim(header, "iv"@, iv_text);
            let first = with_claim(header, "iv"@, iv_text);
            let (c, t) = crate::crypto::aes_gcm_sealed(holder.key, nonce, Seq::empty(), cek)->0;
            lemma_with_claim(first, "tag"@, Json::String(crate::base64url::base64url_chars(t)));
        },
        crate::alg::JweAlgorithm::Pbes2HmacAeskw(_) => {
            let salt_text = Json::String(crate::base64url::base64url_chars(nonce));
            lemma_with_claim(header, "p2s"@, salt_text);
            let first = with_claim(header, "p2s"@, salt_text);
            lemma_with_claim(first, "p2c"@, Json::Integer(holder.iterations as int));
        },
        crate::alg::JweAlgorithm::EcdhEs(_) => {
            lemma_with_claim(header, "epk"@, crate::agreement::epk_of(nonce)->0);
        },
        _ => {},
    }
}

/// The names under which a key agreement keeps its parameters differ from
/// each other and from the names that the engine reads and writes.
pub proof fn lemma_party_names()
    ensures
        "epk"@ != "apu"@,
        "epk"@ != "apv"@,
        "apu"@ != "apv"@,
        "epk"@ != "alg"@,
        "epk"@ != "enc"@,
        "epk"@ != "zip"@,
        "epk"@ != "kid"@,
        "epk"@ != "iv"@,
        "epk"@ != "tag"@,
        "epk"@ != "p2s"@,
        "epk"@ != "p2c"@,
        "apu"@ != "alg"@,
        "apu"@ != "enc"@,
        "apu"@ != "zip"@,
        "apu"@ != "kid"@,
        "apu"@ != "iv"@,
        "apu"@ != "tag"@,
        "apu"@ != "p2s"@,
        "apu"@ != "p2c"@,
        "apv"@ != "alg"@,
        "apv"@ != "enc"@,
        "apv"@ != "zip"@,
        "apv"@ != "kid"@,
        "apv"@ != "iv"@,
        "apv"@ != "tag"@,
        "apv"@ != "p2s"@,
        "apv"@ != "p2c"@,
{
    reveal_strlit("epk");
    reveal_strlit("apu");
    reveal_strlit("apv");
    reveal_strlit("alg");
    reveal_strlit("enc");
    reveal_strlit("zip");
    reveal_strlit("kid");
    reveal_strlit("iv");
    reveal_strlit("tag");
    reveal_strlit("p2s");
    reveal_strlit("p2c");
    assert("epk"@[1] == 'p' && "apu"@[1] == 'p' && "apv"@[1] == 'p');
    assert("epk"@[0] == 'e' && "apu"@[0] == 'a' && "apv"@[0] == 'a');
    assert("apu"@[2] == 'u' && "apv"@[2] == 'v');
    assert("alg"@[1] == 'l' && "enc"@[1] == 'n' && "zip"@[1] == 'i' && "kid"@[1] == 'i');
    assert("tag"@[1] == 'a' && "p2s"@[1] == '2' && "p2c"@[1] == '2');
    assert("iv"@.len() == 2 && "epk"@.len() == 3 && "apu"@.len() == 3 && "apv"@.len() == 3);
}

} // verus!
