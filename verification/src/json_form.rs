use crate::alg::{key_view, slice_view, JweDecrypter, Keyed};
use crate::base64url::{base64url_bytes, decode_text, dot};
use crate::compact::append;
use crate::error::JoseError;
use crate::header::{claims_ok, claims_parsed, share_name, Claims, JweHeader};
use crate::json::{
    bytes_view, find_member, items_view, json_parsed, lemma_array_view, lemma_object_view, lookup,
    members_view, Json, JsonValue,
};
use crate::message::{message_opened, names_view, open_parts, opened_view, Sealed};
use vstd::prelude::*;
use vstd::utf8::encode_utf8;

verus! {

/// The members of a JSON object as mathematics sees them.
pub type Members = Seq<(Seq<char>, Json)>;

/// One recipient of a message as mathematics sees it: the claims that hold
/// for it, and its encrypted key if there is one.
pub type SealedRecipient = (Claims, Option<Seq<u8>>);

/// The parts of a message in JSON form as mathematics sees them.
pub struct SealedJson {
    pub aad: Seq<u8>,
    pub iv: Seq<u8>,
    pub ciphertext: Seq<u8>,
    pub tag: Seq<u8>,
    pub recipients: Seq<SealedRecipient>,
}

/// One recipient of a message: the header that holds for it, made of the
/// protected, the shared and its own claims, and its encrypted key.
#[derive(Debug)]
pub struct JweRecipient {
    pub header: JweHeader,
    pub encrypted_key: Option<Vec<u8>>,
}

/// The parts of a message in JSON form.
#[derive(Debug)]
pub struct JweJsonMessage {
    pub aad: Vec<u8>,
    pub iv: Vec<u8>,
    pub ciphertext: Vec<u8>,
    pub tag: Vec<u8>,
    pub recipients: Vec<JweRecipient>,
}

impl View for JweRecipient {
    type V = SealedRecipient;

    open spec fn view(&self) -> SealedRecipient {
        (self.header@, bytes_view(self.encrypted_key))
    }
}

/// The views of a list of recipients.
pub open spec fn recipients_view(recipients: Seq<JweRecipient>) -> Seq<SealedRecipient> {
    Seq::new(recipients.len(), |i: int| recipients[i]@)
}

impl View for JweJsonMessage {
    type V = SealedJson;

    open spec fn view(&self) -> SealedJson {
        SealedJson {
            aad: self.aad@,
            iv: self.iv@,
            ciphertext: self.ciphertext@,
            tag: self.tag@,
            recipients: recipients_view(self.recipients@),
        }
    }
}

/// The text of a member that may be absent and must else be a string.
pub open spec fn member_text(members: Members, name: Seq<char>) -> Result<
    Option<Seq<char>>,
    JoseError,
> {
    match lookup(members, name) {
        None => Ok(None),
        Some(Json::String(t)) => Ok(Some(t)),
        Some(_) => Err(JoseError::MalformedInput),
    }
}

/// The bytes of a member that may be absent and must else be base64url text.
pub open spec fn member_bytes(members: Members, name: Seq<char>) -> Result<
    Option<Seq<u8>>,
    JoseError,
> {
    match member_text(members, name) {
        Err(e) => Err(e),
        Ok(None) => Ok(None),
        Ok(Some(t)) => match base64url_bytes(encode_utf8(t)) {
            Some(b) => Ok(Some(b)),
            None => Err(JoseError::MalformedInput),
        },
    }
}

/// The bytes of a member that must be there.
pub open spec fn required_bytes(members: Members, name: Seq<char>) -> Result<Seq<u8>, JoseError> {
    match member_bytes(members, name) {
        Ok(Some(b)) => Ok(b),
        Ok(None) => Err(JoseError::MalformedInput),
        Err(e) => Err(e),
    }
}

/// The claims of a member that may be absent and must else be an object
/// whose claims are in order.
pub open spec fn member_claims(members: Members, name: Seq<char>) -> Result<Claims, JoseError> {
    match lookup(members, name) {
        None => Ok(Seq::empty()),
        Some(Json::Object(m)) => if claims_ok(m) {
            Ok(m)
        } else {
            Err(JoseError::MalformedInput)
        },
        Some(_) => Err(JoseError::MalformedInput),
    }
}

/// The protected header: its base64url text as it stands, and the claims
/// that the text holds. A message without one has no protected claims.
pub open spec fn protected_parsed(top: Members) -> Result<(Seq<u8>, Claims), JoseError> {
    match member_text(top, "protected"@) {
        Err(e) => Err(e),
        Ok(None) => Ok((Seq::empty(), Seq::empty())),
        Ok(Some(t)) => match base64url_bytes(encode_utf8(t)) {
            None => Err(JoseError::MalformedInput),
            Some(json) => match claims_parsed(json) {
                Some(claims) => Ok((encode_utf8(t), claims)),
                None => Err(JoseError::MalformedInput),
            },
        },
    }
}

/// The caller's associated data as base64url text, if the message carries
/// any.
pub open spec fn aad_parsed(top: Members) -> Result<Option<Seq<u8>>, JoseError> {
    match member_text(top, "aad"@) {
        Err(e) => Err(e),
        Ok(None) => Ok(None),
        Ok(Some(t)) => if base64url_bytes(encode_utf8(t)) is Some {
            Ok(Some(encode_utf8(t)))
        } else {
            Err(JoseError::MalformedInput)
        },
    }
}

/// The associated data of a message in JSON form: the protected header's
/// base64url text, then a full stop and the caller's associated data in
/// base64url where there is any.
pub open spec fn full_aad(protected_text: Seq<u8>, aad_text: Option<Seq<u8>>) -> Seq<u8> {
    match aad_text {
        Some(a) => protected_text + seq![dot()] + a,
        None => protected_text,
    }
}

/// A recipient read from the members that describe it: its own claims must
/// share no name with the protected and shared ones.
pub open spec fn recipient_parsed(shared: Claims, members: Members) -> Result<
    SealedRecipient,
    JoseError,
> {
    match member_claims(members, "header"@) {
        Err(e) => Err(e),
        Ok(own) => if share_name(shared, own) {
            Err(JoseError::HeaderConflict)
        } else {
            match member_bytes(members, "encrypted_key"@) {
                Err(e) => Err(e),
                Ok(key) => Ok((shared + own, key)),
            }
        },
    }
}

/// A recipient read from an entry of the list of recipients.
pub open spec fn entry_parsed(shared: Claims, item: Json) -> Result<SealedRecipient, JoseError> {
    match item {
        Json::Object(members) => recipient_parsed(shared, members),
        _ => Err(JoseError::MalformedInput),
    }
}

/// The first `n` entries are recipients.
pub open spec fn entries_ok_until(shared: Claims, items: Seq<Json>, n: int) -> bool {
    forall|i: int| 0 <= i < n ==> (#[trigger] entry_parsed(shared, items[i])) is Ok
}

/// The recipients that a list holds, in its order; or what is wrong with the
/// first entry that is none.
pub open spec fn entries_parsed(shared: Claims, items: Seq<Json>) -> Result<
    Seq<SealedRecipient>,
    JoseError,
> {
    if entries_ok_until(shared, items, items.len() as int) {
        Ok(Seq::new(items.len(), |i: int| entry_parsed(shared, items[i])->Ok_0))
    } else {
        let k = choose|k: int|
            0 <= k < items.len() && (#[trigger] entry_parsed(shared, items[k])) is Err
                && entries_ok_until(shared, items, k);
        Err(entry_parsed(shared, items[k])->Err_0)
    }
}

/// The recipients of a message: those of the member `recipients` where there
/// is one, else the one that the message itself describes.
pub open spec fn recipients_parsed(shared: Claims, top: Members) -> Result<
    Seq<SealedRecipient>,
    JoseError,
> {
    match lookup(top, "recipients"@) {
        Some(Json::Array(items)) => entries_parsed(shared, items),
        Some(_) => Err(JoseError::MalformedInput),
        None => match recipient_parsed(shared, top) {
            Ok(r) => Ok(seq![r]),
            Err(e) => Err(e),
        },
    }
}

/// The parts that the members of a message's JSON object hold.
pub open spec fn members_parsed(top: Members) -> Result<SealedJson, JoseError> {
    match protected_parsed(top) {
        Err(e) => Err(e),
        Ok((protected_text, protected)) => match member_claims(top, "unprotected"@) {
            Err(e) => Err(e),
            Ok(unprotected) => if share_name(protected, unprotected) {
                Err(JoseError::HeaderConflict)
            } else {
                match aad_parsed(top) {
                    Err(e) => Err(e),
                    Ok(aad_text) => match (
                        required_bytes(top, "iv"@),
                        required_bytes(top, "ciphertext"@),
                        required_bytes(top, "tag"@),
                    ) {
                        (Ok(iv), Ok(ciphertext), Ok(tag)) => match recipients_parsed(
                            protected + unprotected,
                            top,
                        ) {
                            Err(e) => Err(e),
                            Ok(recipients) => Ok(
                                SealedJson {
                                    aad: full_aad(protected_text, aad_text),
                                    iv,
                                    ciphertext,
                                    tag,
                                    recipients,
                                },
                            ),
                        },
                        _ => Err(JoseError::MalformedInput),
                    },
                }
            },
        },
    }
}

/// The parts that a text in JSON form holds, flattened or general.
pub open spec fn json_message_parsed(text: Seq<u8>) -> Result<SealedJson, JoseError> {
    match json_parsed(text) {
        Some(Json::Object(top)) => members_parsed(top),
        _ => Err(JoseError::MalformedInput),
    }
}

/// The message as one recipient sees it.
pub open spec fn recipient_sealed(message: SealedJson, i: int) -> Sealed {
    Sealed {
        aad: message.aad,
        claims: message.recipients[i].0,
        encrypted_key: message.recipients[i].1,
        iv: message.iv,
        ciphertext: message.ciphertext,
        tag: message.tag,
    }
}

/// The payload that a decrypter opens recipient `i` to.
pub open spec fn recipient_opened(
    message: SealedJson,
    i: int,
    holder: Keyed,
    acceptable: Seq<Seq<char>>,
) -> Result<Seq<u8>, JoseError> {
    message_opened(recipient_sealed(message, i), holder, acceptable)
}

/// None of the first `n` recipients opens.
pub open spec fn none_opens_until(
    message: SealedJson,
    holder: Keyed,
    acceptable: Seq<Seq<char>>,
    n: int,
) -> bool {
    forall|i: int| 0 <= i < n ==> (#[trigger] recipient_opened(message, i, holder, acceptable)) is Err
}

/// To none of the first `n` recipients does the decrypter apply.
pub open spec fn none_applies_until(
    message: SealedJson,
    holder: Keyed,
    acceptable: Seq<Seq<char>>,
    n: int,
) -> bool {
    forall|i: int|
        0 <= i < n ==> (#[trigger] recipient_opened(message, i, holder, acceptable)) == Err::<
            Seq<u8>,
            JoseError,
        >(JoseError::NoApplicableAlgorithm)
}

/// The payload and header that a decrypter opens a message in JSON form to:
/// those of the first recipient that opens. Where none opens, the failure is
/// that of the first recipient to which the decrypter applied; where it
/// applied to none, no algorithm applies.
pub open spec fn json_message_opened(
    message: SealedJson,
    holder: Keyed,
    acceptable: Seq<Seq<char>>,
) -> Result<(Seq<u8>, Claims), JoseError> {
    let n = message.recipients.len() as int;
    if !none_opens_until(message, holder, acceptable, n) {
        let i = choose|i: int|
            0 <= i < n && (#[trigger] recipient_opened(message, i, holder, acceptable)) is Ok
                && none_opens_until(message, holder, acceptable, i);
        Ok((recipient_opened(message, i, holder, acceptable)->Ok_0, message.recipients[i].0))
    } else if !none_applies_until(message, holder, acceptable, n) {
        let i = choose|i: int|
            0 <= i < n && (#[trigger] recipient_opened(message, i, holder, acceptable)) != Err::<
                Seq<u8>,
                JoseError,
            >(JoseError::NoApplicableAlgorithm) && none_applies_until(
                message,
                holder,
                acceptable,
                i,
            );
        Err(recipient_opened(message, i, holder, acceptable)->Err_0)
    } else {
        Err(JoseError::NoApplicableAlgorithm)
    }
}

/// The payload and header that a decrypter opens a text in JSON form to.
pub open spec fn json_opened(text: Seq<u8>, holder: Keyed, acceptable: Seq<Seq<char>>) -> Result<
    (Seq<u8>, Claims),
    JoseError,
> {
    match json_message_parsed(text) {
        Err(e) => Err(e),
        Ok(message) => json_message_opened(message, holder, acceptable),
    }
}

/// The view of an optional text.
pub open spec fn str_view(t: Option<&str>) -> Option<Seq<char>> {
    match t {
        Some(s) => Some(s@),
        None => None,
    }
}

/// The view of an optional text or its refusal.
pub open spec fn text_option_view(r: Result<Option<&str>, JoseError>) -> Result<
    Option<Seq<char>>,
    JoseError,
> {
    match r {
        Ok(t) => Ok(str_view(t)),
        Err(e) => Err(e),
    }
}

/// The view of optional bytes or their refusal.
pub open spec fn bytes_option_view(r: Result<Option<Vec<u8>>, JoseError>) -> Result<
    Option<Seq<u8>>,
    JoseError,
> {
    match r {
        Ok(b) => Ok(bytes_view(b)),
        Err(e) => Err(e),
    }
}

/// The view of a header or its refusal.
pub open spec fn claims_view(r: Result<JweHeader, JoseError>) -> Result<Claims, JoseError> {
    match r {
        Ok(h) => Ok(h@),
        Err(e) => Err(e),
    }
}

/// The text of a member that may be absent and must else be a string.
pub fn get_text<'a>(members: &'a Vec<(String, JsonValue)>, name: &str) -> (r: Result<
    Option<&'a str>,
    JoseError,
>)
    ensures
        text_option_view(r) == member_text(members_view(members@), name@),
{
    match find_member(members, name) {
        None => Ok(None),
        Some(k) => match &members[k].1 {
            JsonValue::String(t) => Ok(Some(t.as_str())),
            _ => Err(JoseError::MalformedInput),
        },
    }
}

/// The bytes of a member that may be absent and must else be base64url text.
pub fn get_bytes(members: &Vec<(String, JsonValue)>, name: &str) -> (r: Result<
    Option<Vec<u8>>,
    JoseError,
>)
    ensures
        bytes_option_view(r) == member_bytes(members_view(members@), name@),
{
    match get_text(members, name) {
        Err(e) => Err(e),
        Ok(None) => Ok(None),
        Ok(Some(t)) => match decode_text(t) {
            Some(b) => Ok(Some(b)),
            None => Err(JoseError::MalformedInput),
        },
    }
}

/// The bytes of a member that must be there.
pub fn get_required_bytes(members: &Vec<(String, JsonValue)>, name: &str) -> (r: Result<
    Vec<u8>,
    JoseError,
>)
    ensures
        key_view(r) == required_bytes(members_view(members@), name@),
{
    match get_bytes(members, name) {
        Ok(Some(b)) => Ok(b),
        Ok(None) => Err(JoseError::MalformedInput),
        Err(e) => Err(e),
    }
}

/// A copy of the members of an object.
#[verifier::loop_isolation(false)]
pub fn copy_members(members: &Vec<(String, JsonValue)>) -> (r: Vec<(String, JsonValue)>)
    ensures
        members_view(r@) == members_view(members@),
{
    let mut copy: Vec<(String, JsonValue)> = Vec::new();
    let mut i: usize = 0;
    while i < members.len()
        invariant
            i <= members@.len(),
            copy@.len() == i,
            forall|k: int|
                0 <= k < i ==> copy@[k].0@ == members@[k].0@ && copy@[k].1@ == members@[k].1@,
        decreases members@.len() - i,
    {
        copy.push((members[i].0.clone(), members[i].1.clone()));
        i += 1;
    }
    assert(members_view(copy@) =~= members_view(members@));
    copy
}

/// The claims of a member that may be absent and must else be an object
/// whose claims are in order.
pub fn get_claims(members: &Vec<(String, JsonValue)>, name: &str) -> (r: Result<
    JweHeader,
    JoseError,
>)
    ensures
        claims_view(r) == member_claims(members_view(members@), name@),
        r matches Ok(h) ==> h.wf(),
{
    match find_member(members, name) {
        None => Ok(JweHeader::new()),
        Some(k) => match &members[k].1 {
            JsonValue::Object(m) => {
                proof {
                    lemma_object_view(*m);
                }
                JweHeader::from_members(copy_members(m))
            },
            _ => Err(JoseError::MalformedInput),
        },
    }
}

/// The view of a recipient or its refusal.
pub open spec fn recipient_view(r: Result<JweRecipient, JoseError>) -> Result<
    SealedRecipient,
    JoseError,
> {
    match r {
        Ok(x) => Ok(x@),
        Err(e) => Err(e),
    }
}

/// Reads a recipient from the members that describe it.
pub fn parse_recipient(shared: &JweHeader, members: &Vec<(String, JsonValue)>) -> (r: Result<
    JweRecipient,
    JoseError,
>)
    requires
        shared.wf(),
    ensures
        recipient_view(r) == recipient_parsed(shared@, members_view(members@)),
        r matches Ok(x) ==> x.header.wf(),
{
    let own = match get_claims(members, "header") {
        Ok(h) => h,
        Err(e) => {
            return Err(e);
        },
    };
    let header = match shared.merge(&own) {
        Ok(h) => h,
        Err(e) => {
            return Err(e);
        },
    };
    match get_bytes(members, "encrypted_key") {
        Ok(encrypted_key) => Ok(JweRecipient { header, encrypted_key }),
        Err(e) => Err(e),
    }
}

/// The view of a list of recipients or its refusal.
pub open spec fn recipient_list_view(r: Result<Vec<JweRecipient>, JoseError>) -> Result<
    Seq<SealedRecipient>,
    JoseError,
> {
    match r {
        Ok(x) => Ok(recipients_view(x@)),
        Err(e) => Err(e),
    }
}

/// Every recipient's header is in order.
pub open spec fn recipients_wf(recipients: Seq<JweRecipient>) -> bool {
    forall|i: int| 0 <= i < recipients.len() ==> (#[trigger] recipients[i]).header.wf()
}

/// Reads the recipients from the entries of a list.
#[verifier::loop_isolation(false)]
#[verifier::rlimit(40)]
pub fn parse_entries(shared: &JweHeader, items: &Vec<JsonValue>) -> (r: Result<
    Vec<JweRecipient>,
    JoseError,
>)
    requires
        shared.wf(),
    ensures
        recipient_list_view(r) == entries_parsed(shared@, items_view(items@)),
        r matches Ok(x) ==> recipients_wf(x@),
{
    let ghost list = items_view(items@);
    let mut recipients: Vec<JweRecipient> = Vec::new();
    let mut i: usize = 0;
    while i < items.len()
        invariant
            i <= items@.len(),
            recipients@.len() == i,
            recipients_wf(recipients@),
            entries_ok_until(shared@, list, i as int),
            forall|k: int|
                0 <= k < i ==> entry_parsed(shared@, list[k]) == Ok::<SealedRecipient, JoseError>(
                    (#[trigger] recipients@[k])@,
                ),
        decreases items@.len() - i,
    {
        let parsed = match &items[i] {
            JsonValue::Object(members) => {
                proof {
                    lemma_object_view(*members);
                }
                parse_recipient(shared, members)
            },
            _ => Err(JoseError::MalformedInput),
        };
        assert(recipient_view(parsed) == entry_parsed(shared@, list[i as int]));
        match parsed {
            Ok(recipient) => {
                recipients.push(recipient);
            },
            Err(e) => {
                proof {
                    let bad = i as int;
                    assert(entry_parsed(shared@, list[bad]) is Err);
                    let k = choose|k: int|
                        0 <= k < list.len() && (#[trigger] entry_parsed(shared@, list[k])) is Err
                            && entries_ok_until(shared@, list, k);
                    if k < bad {
                        assert(entry_parsed(shared@, list[k]) is Ok);
                    }
                    if k > bad {
                        assert(entry_parsed(shared@, list[bad]) is Ok);
                    }
                    assert(k == bad);
                }
                return Err(e);
            },
        }
        i += 1;
    }
    proof {
        assert(recipients_view(recipients@) =~= Seq::new(
            list.len(),
            |k: int| entry_parsed(shared@, list[k])->Ok_0,
        ));
    }
    Ok(recipients)
}

/// The view of a message in JSON form or its refusal.
pub open spec fn json_message_view(r: Result<JweJsonMessage, JoseError>) -> Result<
    SealedJson,
    JoseError,
> {
    match r {
        Ok(m) => Ok(m@),
        Err(e) => Err(e),
    }
}

impl JweJsonMessage {
    /// The message's invariant: every recipient's header is in order.
    pub open spec fn wf(&self) -> bool {
        recipients_wf(self.recipients@)
    }

    /// Reads the members of a message's JSON object into its parts.
#[verifier::rlimit(40)]
    pub fn from_members(top: &Vec<(String, JsonValue)>) -> (r: Result<JweJsonMessage, JoseError>)
        ensures
            json_message_view(r) == members_parsed(members_view(top@)),
            r matches Ok(m) ==> m.wf(),
    {
        let mut aad: Vec<u8> = Vec::new();
        let protected = match get_text(top, "protected") {
            Err(e) => {
                return Err(e);
            },
            Ok(None) => JweHeader::new(),
            Ok(Some(t)) => {
                let json = match decode_text(t) {
                    Some(json) => json,
                    None => {
                        return Err(JoseError::MalformedInput);
                    },
                };
                append(&mut aad, t.as_bytes());
                match JweHeader::from_bytes(json.as_slice()) {
                    Ok(h) => h,
                    Err(e) => {
                        return Err(e);
                    },
                }
            },
        };
        let ghost protected_text = aad@;
        assert(protected_parsed(members_view(top@)) == Ok::<(Seq<u8>, Claims), JoseError>(
            (protected_text, protected@),
        ));
        let unprotected = match get_claims(top, "unprotected") {
            Ok(h) => h,
            Err(e) => {
                return Err(e);
            },
        };
        let shared = match protected.merge(&unprotected) {
            Ok(h) => h,
            Err(e) => {
                return Err(e);
            },
        };
        match get_text(top, "aad") {
            Err(e) => {
                return Err(e);
            },
            Ok(None) => {},
            Ok(Some(t)) => {
                if decode_text(t).is_none() {
                    return Err(JoseError::MalformedInput);
                }
                aad.push(0x2e);
                append(&mut aad, t.as_bytes());
            },
        }
        assert(aad_parsed(members_view(top@)) is Ok);
        assert(aad@ =~= full_aad(protected_text, aad_parsed(members_view(top@))->Ok_0));
        let iv = get_required_bytes(top, "iv");
        let ciphertext = get_required_bytes(top, "ciphertext");
        let tag = get_required_bytes(top, "tag");
        let (iv, ciphertext, tag) = match (iv, ciphertext, tag) {
            (Ok(iv), Ok(ciphertext), Ok(tag)) => (iv, ciphertext, tag),
            _ => {
                return Err(JoseError::MalformedInput);
            },
        };
        let recipients = match find_member(top, "recipients") {
            Some(k) => match &top[k].1 {
                JsonValue::Array(items) => {
                    proof {
                        lemma_array_view(*items);
                    }
                    match parse_entries(&shared, items) {
                        Ok(recipients) => recipients,
                        Err(e) => {
                            return Err(e);
                        },
                    }
                },
                _ => {
                    return Err(JoseError::MalformedInput);
                },
            },
            None => match parse_recipient(&shared, top) {
                Ok(recipient) => {
                    let mut recipients: Vec<JweRecipient> = Vec::new();
                    recipients.push(recipient);
                    assert(recipients_view(recipients@) =~= seq![recipient@]);
                    recipients
                },
                Err(e) => {
                    return Err(e);
                },
            },
        };
        Ok(JweJsonMessage { aad, iv, ciphertext, tag, recipients })
    }

    /// Reads a text in JSON form, flattened or general, into its parts.
    pub fn parse(input: &[u8]) -> (r: Result<JweJsonMessage, JoseError>)
        ensures
            json_message_view(r) == json_message_parsed(input@),
            r matches Ok(m) ==> m.wf(),
    {
        match JsonValue::parse(input) {
            Some(JsonValue::Object(top)) => {
                proof {
                    lemma_object_view(top);
                }
                JweJsonMessage::from_members(&top)
            },
            _ => Err(JoseError::MalformedInput),
        }
    }

    /// Opens the message with a decrypter: the first recipient that opens
    /// gives the payload and the header.
    #[verifier::loop_isolation(false)]
#[verifier::rlimit(40)]
    pub fn open(self, decrypter: &JweDecrypter, acceptable: &Vec<String>) -> (r: Result<
        (Vec<u8>, JweHeader),
        JoseError,
    >)
        requires
            self.wf(),
        ensures
            opened_view(r) == json_message_opened(self@, decrypter@, names_view(acceptable@)),
            r matches Ok((_, h)) ==> h.wf(),
    {
        let ghost m = self@;
        let ghost holder = decrypter@;
        let ghost names = names_view(acceptable@);
        let mut failure: Option<JoseError> = None;
        let mut found: Option<usize> = None;
        let mut payload: Vec<u8> = Vec::new();
        let mut i: usize = 0;
        while i < self.recipients.len() && found.is_none()
            invariant
                i <= self.recipients@.len(),
                found is None ==> none_opens_until(m, holder, names, i as int),
                found matches Some(k) ==> k < i && none_opens_until(m, holder, names, k as int)
                    && recipient_opened(m, k as int, holder, names) == Ok::<Seq<u8>, JoseError>(
                    payload@,
                ),
                match failure {
                    None => none_applies_until(m, holder, names, i as int) || found is Some,
                    Some(e) => e != JoseError::NoApplicableAlgorithm && exists|k: int|
                        0 <= k < i && #[trigger] recipient_opened(m, k, holder, names) == Err::<
                            Seq<u8>,
                            JoseError,
                        >(e) && none_applies_until(m, holder, names, k),
                },
            decreases self.recipients@.len() - i, (if found is None { 1int } else { 0int }),
        {
            let recipient = &self.recipients[i];
            let key: Option<&[u8]> = match &recipient.encrypted_key {
                Some(k) => Some(k.as_slice()),
                None => None,
            };
            let opened = open_parts(
                &recipient.header,
                key,
                self.aad.as_slice(),
                self.iv.as_slice(),
                self.ciphertext.as_slice(),
                self.tag.as_slice(),
                decrypter,
                acceptable,
            );
            assert(recipient_sealed(m, i as int) == (Sealed {
                aad: self.aad@,
                claims: recipient.header@,
                encrypted_key: slice_view(key),
                iv: self.iv@,
                ciphertext: self.ciphertext@,
                tag: self.tag@,
            }));
            assert(key_view(opened) == recipient_opened(m, i as int, holder, names));
            match opened {
                Ok(p) => {
                    payload = p;
                    found = Some(i);
                },
                Err(e) => {
                    if failure.is_none() {
                        match e {
                            JoseError::NoApplicableAlgorithm => {},
                            _ => {
                                failure = Some(e);
                            },
                        }
                    }
                },
            }
            i += 1;
        }
        let n = self.recipients.len();
        match found {
            Some(k) => {
                proof {
                    let c = choose|c: int|
                        0 <= c < n && (#[trigger] recipient_opened(m, c, holder, names)) is Ok
                            && none_opens_until(m, holder, names, c);
                    assert(recipient_opened(m, k as int, holder, names) is Ok);
                    if c < k {
                        assert(recipient_opened(m, c, holder, names) is Err);
                    }
                    if c > k {
                        assert(recipient_opened(m, k as int, holder, names) is Err);
                    }
                    assert(c == k);
                }
                let mut recipients = self.recipients;
                let recipient = recipients.swap_remove(k);
                Ok((payload, recipient.header))
            },
            None => match failure {
                Some(e) => {
                    proof {
                        let k = choose|k: int|
                            0 <= k < i && #[trigger] recipient_opened(m, k, holder, names) == Err::<
                                Seq<u8>,
                                JoseError,
                            >(e) && none_applies_until(m, holder, names, k);
                        let c = choose|c: int|
                            0 <= c < n && (#[trigger] recipient_opened(m, c, holder, names))
                                != Err::<Seq<u8>, JoseError>(JoseError::NoApplicableAlgorithm)
                                && none_applies_until(m, holder, names, c);
                        if c < k {
                            assert(recipient_opened(m, c, holder, names) == Err::<
                                Seq<u8>,
                                JoseError,
                            >(JoseError::NoApplicableAlgorithm));
                        }
                        if c > k {
                            assert(recipient_opened(m, k, holder, names) == Err::<
                                Seq<u8>,
                                JoseError,
                            >(JoseError::NoApplicableAlgorithm));
                        }
                        assert(c == k);
                    }
                    Err(e)
                },
                None => Err(JoseError::NoApplicableAlgorithm),
            },
        }
    }
}

/// The selector was asked for recipient `i` of the message, with the header
/// that holds for that recipient, and made this choice.
pub open spec fn asked_at<'a, F: Fn(&JweHeader) -> Result<Option<&'a JweDecrypter>, JoseError>>(
    selector: F,
    message: SealedJson,
    i: int,
    asked: &JweHeader,
    choice: Result<Option<&'a JweDecrypter>, JoseError>,
) -> bool {
    &&& 0 <= i < message.recipients.len()
    &&& asked@ == message.recipients[i].0
    &&& call_ensures(selector, (asked,), choice)
}

/// How far the search for a recipient that opens has come: it found one and
/// has the payload and the header, or the selector refused, or it goes on and
/// remembers the first failure of a recipient to which a decrypter applied.
pub enum Scan {
    Found(Seq<u8>, Claims),
    Refused(JoseError),
    Searching(Option<JoseError>),
}

/// The search after recipient `i`, for whom the selector made `choice`. A
/// search that has ended stays as it is. Else a refusal of the selector ends
/// it; no decrypter passes the recipient over; and a decrypter opens the
/// recipient, which ends the search, or fails to.
pub open spec fn scan_step<'a>(
    message: SealedJson,
    acceptable: Seq<Seq<char>>,
    i: int,
    before: Scan,
    choice: Result<Option<&'a JweDecrypter>, JoseError>,
) -> Scan {
    match before {
        Scan::Searching(failure) => match choice {
            Err(e) => Scan::Refused(e),
            Ok(None) => Scan::Searching(failure),
            Ok(Some(decrypter)) => match recipient_opened(message, i, decrypter@, acceptable) {
                Ok(payload) => Scan::Found(payload, message.recipients[i].0),
                Err(e) => Scan::Searching(
                    if failure is None && e != JoseError::NoApplicableAlgorithm {
                        Some(e)
                    } else {
                        failure
                    },
                ),
            },
        },
        ended => ended,
    }
}

/// The search after the first `n` recipients.
pub open spec fn scanned<'a>(
    message: SealedJson,
    acceptable: Seq<Seq<char>>,
    choices: Seq<Result<Option<&'a JweDecrypter>, JoseError>>,
    n: int,
) -> Scan
    decreases n,
{
    if n <= 0 {
        Scan::Searching(None)
    } else {
        scan_step(
            message,
            acceptable,
            n - 1,
            scanned(message, acceptable, choices, n - 1),
            choices[n - 1],
        )
    }
}

/// What a search gives: the payload and header that it found, the selector's
/// refusal, the first failure that it remembers, or that no algorithm
/// applies.
pub open spec fn scan_result(scan: Scan) -> Result<(Seq<u8>, Claims), JoseError> {
    match scan {
        Scan::Found(payload, header) => Ok((payload, header)),
        Scan::Refused(e) => Err(e),
        Scan::Searching(Some(e)) => Err(e),
        Scan::Searching(None) => Err(JoseError::NoApplicableAlgorithm),
    }
}

/// The selector made these choices for the first recipients of the message,
/// in their order, each when asked with the header that holds for that
/// recipient.
pub open spec fn all_asked<'a, F: Fn(&JweHeader) -> Result<Option<&'a JweDecrypter>, JoseError>>(
    selector: F,
    message: SealedJson,
    choices: Seq<Result<Option<&'a JweDecrypter>, JoseError>>,
) -> bool {
    &&& choices.len() <= message.recipients.len()
    &&& forall|i: int|
        0 <= i < choices.len() ==> #[trigger] was_asked(selector, message, i, choices[i])
}

/// The selector made this choice for recipient `i` of the message, when asked
/// with the header that holds for that recipient.
pub open spec fn was_asked<'a, F: Fn(&JweHeader) -> Result<Option<&'a JweDecrypter>, JoseError>>(
    selector: F,
    message: SealedJson,
    i: int,
    choice: Result<Option<&'a JweDecrypter>, JoseError>,
) -> bool {
    exists|asked: &JweHeader| asked_at(selector, message, i, asked, choice)
}

/// What holds of the outcome of opening a message with the decrypters that a
/// selector picks: it is what the search gives for the choices that the
/// selector made, recipient by recipient, until the search ended or no
/// recipient was left.
pub open spec fn selected_outcome<'a, F: Fn(&JweHeader) -> Result<Option<&'a JweDecrypter>, JoseError>>(
    selector: F,
    message: SealedJson,
    acceptable: Seq<Seq<char>>,
    r: Result<(Seq<u8>, Claims), JoseError>,
) -> bool {
    exists|choices: Seq<Result<Option<&'a JweDecrypter>, JoseError>>|
        {
            &&& all_asked(selector, message, choices)
            &&& (choices.len() == message.recipients.len() || !(scanned(
                message,
                acceptable,
                choices,
                choices.len() as int,
            ) is Searching))
            &&& r == scan_result(
                #[trigger] scanned(message, acceptable, choices, choices.len() as int),
            )
        }
}

/// The search after the first `n` recipients depends on the choices made for
/// them only.
pub proof fn lemma_scanned_prefix<'a>(
    message: SealedJson,
    acceptable: Seq<Seq<char>>,
    first: Seq<Result<Option<&'a JweDecrypter>, JoseError>>,
    second: Seq<Result<Option<&'a JweDecrypter>, JoseError>>,
    n: int,
)
    requires
        n <= first.len(),
        n <= second.len(),
        forall|k: int| 0 <= k < n ==> first[k] == second[k],
    ensures
        scanned(message, acceptable, first, n) == scanned(message, acceptable, second, n),
    decreases n,
{
    if n > 0 {
        lemma_scanned_prefix(message, acceptable, first, second, n - 1);
    }
}

} // verus!
