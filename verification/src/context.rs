use crate::alg::{
    content_key, derived_as, drawn, key_unwrapped, key_view, lemma_pairs_recover,
    lemma_parameter_names, sealed_for, slice_view, JweDecrypter, JweEncrypter, Keyed,
};
use crate::base64url::text_from_utf8;
use crate::content::JweContentEncryption;
use crate::crypto::random_bytes;
use crate::error::JoseError;
use crate::header::{
    claims_plain, lemma_names_differ, lemma_with_claim, share_name, Claims, JweHeader,
};
use crate::json::{bytes_view, Json};
use crate::json_form::{
    all_asked, asked_at, json_message_parsed, json_opened, lemma_scanned_prefix, recipient_opened,
    recipient_sealed, scan_step, scanned, selected_outcome, was_asked, JweJsonMessage, Scan,
};
use crate::message::{
    choose_compression, choose_encryption, chosen_compression, chosen_encryption, compact_opened,
    compact_parsed, content_recovered, criticals_accepted, message_opened, names_view, open_message,
    opened_view, JweMessage, Sealed,
};
use crate::round_trip::{lemma_compact_round_trip, lemma_flattened_round_trip, lemma_general_round_trip, lemma_sent_keeps};
use crate::sealing::{
    addressees_wf, all_drawn, any_derives, compact_header, compact_serialized, compact_written,
    draw_refuses, drawn_for, flattened_header, flattened_serialized, flattened_written,
    general_opens_back, general_serialized, general_written, goes_with, header_or_empty,
    header_sealed, header_view, headers_merged, merge_headers, opens_back, opens_back_json,
    seal_compact, seal_flattened, seal_general, send_to_all, text_result_view, Addressee,
};
use vstd::prelude::*;
use vstd::utf8::encode_utf8;

verus! {

/// The engine: what it holds is the list of names that a header may call
/// critical.
#[derive(Debug)]
pub struct JweContext {
    acceptable_criticals: Vec<String>,
}

impl JweContext {
    /// The names that a header may call critical.
    pub closed spec fn acceptable(&self) -> Seq<Seq<char>> {
        names_view(self.acceptable_criticals@)
    }

    /// An engine that accepts no critical name.
    pub fn new() -> (r: JweContext)
        ensures
            r.acceptable() == Seq::<Seq<char>>::empty(),
    {
        let r = JweContext { acceptable_criticals: Vec::new() };
        assert(r.acceptable() =~= Seq::<Seq<char>>::empty());
        r
    }

    /// Says whether a header may call `name` critical.
    pub fn is_acceptable_critical(&self, name: &str) -> (r: bool)
        ensures
            r == self.acceptable().contains(name@),
    {
        crate::message::contains_name(&self.acceptable_criticals, name)
    }

    /// Lets headers call `name` critical.
    pub fn add_acceptable_critical(&mut self, name: &str)
        ensures
            final(self).acceptable() == old(self).acceptable().push(name@),
    {
        self.acceptable_criticals.push(name.to_owned());
        assert(self.acceptable() =~= old(self).acceptable().push(name@));
    }

    /// Writes the compact text of a payload with the random bytes given:
    /// `seed` for the content-encryption key, `nonce` for the key wrapping,
    /// `iv` for the content. A decrypter that goes with the encrypter opens
    /// the text to the payload and to the header that was sent, where that
    /// header is plain and calls nothing critical that is not accepted.
#[verifier::rlimit(40)]
    pub fn serialize_compact_with(
        &self,
        payload: &[u8],
        header: &JweHeader,
        encrypter: &JweEncrypter,
        seed: &[u8],
        nonce: &[u8],
        iv: &[u8],
    ) -> (r: Result<String, JoseError>)
        requires
            header.wf(),
        ensures
            text_result_view(r) == compact_serialized(
                payload@,
                header@,
                encrypter@,
                seed@,
                nonce@,
                iv@,
            ),
            r matches Ok(text) ==> (compact_header(header@, encrypter@, seed@, nonce@) matches Ok(
                sent,
            ) && (sealed_for(encrypter@, seed@, nonce@) ==> opens_back(
                encode_utf8(text@),
                payload@,
                sent,
                encrypter@,
                self.acceptable(),
            ))),
    {
        let enc = match choose_encryption(header) {
            Ok(enc) => enc,
            Err(e) => {
                return Err(e);
            },
        };
        let zip = match choose_compression(header) {
            Ok(zip) => zip,
            Err(e) => {
                return Err(e);
            },
        };
        let content_key = match encrypter.content_key(enc, seed, nonce, header) {
            Ok(k) => k,
            Err(e) => {
                return Err(e);
            },
        };
        let cek: &[u8] = content_key.as_slice();
        let mut out = header.clone();
        let encrypted_key = match encrypter.wrap_key(cek, nonce, &mut out) {
            Ok(k) => k,
            Err(e) => {
                return Err(e);
            },
        };
        let ghost wrapped = out@;
        match encrypter.key_id() {
            Some(id) => {
                if header.claim("kid").is_none() {
                    proof {
                        lemma_with_claim(out@, "kid"@, Json::String(id@));
                    }
                    out.set_key_id(id);
                }
            },
            None => {},
        }
        let ghost identified = out@;
        proof {
            lemma_with_claim(out@, "alg"@, Json::String(encrypter@.algorithm.spec_name()));
        }
        out.set_algorithm(encrypter.algorithm().name());
        let ghost sent = out@;
        assert(sent == header_sealed(wrapped, header@, encrypter@));
        let key: Option<&[u8]> = match &encrypted_key {
            Some(k) => Some(k.as_slice()),
            None => None,
        };
        let text = match seal_compact(&out, enc, zip, cek, key, iv, payload) {
            Ok(text) => text,
            Err(e) => {
                return Err(e);
            },
        };
        proof {
            vstd::utf8::decode_utf8_encode_utf8(text@);
            if sealed_for(encrypter@, seed@, nonce@) {
                lemma_pairs_recover(
                    encrypter@,
                    cek@,
                    nonce@,
                    header@,
                    header@,
                    bytes_view(encrypted_key),
                    wrapped,
                );
                lemma_compact_round_trip(
                    text@,
                    payload@,
                    header@,
                    wrapped,
                    identified,
                    sent,
                    encrypter@,
                    self.acceptable(),
                    enc,
                    zip,
                    cek@,
                    nonce@,
                    bytes_view(encrypted_key),
                );
            }
        }
        match text_from_utf8(text) {
            Some(s) => Ok(s),
            None => Err(JoseError::MalformedInput),
        }
    }

    /// Writes the compact text of a payload under a header and an encrypter.
    /// The random bytes are drawn here.
#[verifier::rlimit(40)]
    pub fn serialize_compact(&self, payload: &[u8], header: &JweHeader, encrypter: &JweEncrypter) -> (r:
        Result<String, JoseError>)
        requires
            header.wf(),
        ensures
            compact_written(
                payload@,
                header@,
                encrypter@,
                self.acceptable(),
                text_result_view(r),
            ),
    {
        let enc = match choose_encryption(header) {
            Ok(enc) => enc,
            Err(e) => {
                return Err(e);
            },
        };
        match choose_compression(header) {
            Ok(_) => {},
            Err(e) => {
                return Err(e);
            },
        }
        let seed = if encrypter.algorithm().derives_key() {
            Vec::new()
        } else {
            match random_bytes(enc.key_len()) {
                Some(seed) => seed,
                None => {
                    return Err(JoseError::RandomSourceFailed);
                },
            }
        };
        let nonce = match encrypter.draw(seed.as_slice()) {
            Ok(nonce) => nonce,
            Err(e) => {
                proof {
                    if e == JoseError::KeyMismatch && encrypter@.algorithm.shared_key() {
                        let nonce = Seq::new(encrypter@.salt_len, |i: int| 0u8);
                        let iv = Seq::new(enc.spec_iv_len(), |i: int| 0u8);
                        assert(drawn_for(enc, encrypter@, seed@, nonce, iv));
                        assert(compact_serialized(payload@, header@, encrypter@, seed@, nonce, iv) == Err::<Seq<u8>, JoseError>(
                            JoseError::KeyMismatch,
                        ));
                    }
                }
                return Err(e);
            },
        };
        let iv = match random_bytes(enc.iv_len()) {
            Some(iv) => iv,
            None => {
                return Err(JoseError::RandomSourceFailed);
            },
        };
        let r = self.serialize_compact_with(
            payload,
            header,
            encrypter,
            seed.as_slice(),
            nonce.as_slice(),
            iv.as_slice(),
        );
        proof {
            assert(drawn_for(enc, encrypter@, seed@, nonce@, iv@));
            assert(compact_serialized(payload@, header@, encrypter@, seed@, nonce@, iv@)
                == text_result_view(r));
        }
        r
    }

    /// Writes the compact text of a payload under the encrypter that
    /// `selector` picks for the header. Where it picks none, no algorithm
    /// applies.
    pub fn serialize_compact_with_selector<'a, F>(
        &self,
        payload: &[u8],
        header: &JweHeader,
        selector: F,
    ) -> (r: Result<String, JoseError>) where F: Fn(&JweHeader) -> Option<&'a JweEncrypter>
        requires
            header.wf(),
            call_requires(selector, (header,)),
        ensures
            exists|choice: Option<&'a JweEncrypter>|
                {
                    &&& #[trigger] call_ensures(selector, (header,), choice)
                    &&& match choice {
                        Some(encrypter) => compact_written(
                            payload@,
                            header@,
                            encrypter@,
                            self.acceptable(),
                            text_result_view(r),
                        ),
                        None => r == Err::<String, JoseError>(JoseError::NoApplicableAlgorithm),
                    }
                },
    {
        let choice = selector(header);
        match choice {
            Some(encrypter) => self.serialize_compact(payload, header, encrypter),
            None => Err(JoseError::NoApplicableAlgorithm),
        }
    }

    /// Opens a compact text with the decrypter that `selector` picks for the
    /// header it reads, before anything is decrypted. Where it picks none,
    /// no algorithm applies; where it fails, so does this.
    pub fn deserialize_compact_with_selector<'a, F>(&self, input: &str, selector: F) -> (r: Result<
        (Vec<u8>, JweHeader),
        JoseError,
    >) where F: Fn(&JweHeader) -> Result<Option<&'a JweDecrypter>, JoseError>
        requires
            forall|h: &JweHeader| h.wf() ==> call_requires(selector, (h,)),
        ensures
            match compact_parsed(encode_utf8(input@)) {
                Err(e) => r == Err::<(Vec<u8>, JweHeader), JoseError>(e),
                Ok(message) => exists|
                    header: &JweHeader,
                    choice: Result<Option<&'a JweDecrypter>, JoseError>,
                |
                    {
                        &&& header@ == message.claims
                        &&& #[trigger] call_ensures(selector, (header,), choice)
                        &&& match choice {
                            Err(e) => r == Err::<(Vec<u8>, JweHeader), JoseError>(e),
                            Ok(None) => r == Err::<(Vec<u8>, JweHeader), JoseError>(
                                JoseError::NoApplicableAlgorithm,
                            ),
                            Ok(Some(decrypter)) => opened_view(r) == compact_opened(
                                encode_utf8(input@),
                                decrypter@,
                                self.acceptable(),
                            ),
                        }
                    },
            },
            r matches Ok((_, h)) ==> h.wf(),
    {
        let message = match JweMessage::parse_compact(input.as_bytes()) {
            Ok(m) => m,
            Err(e) => {
                return Err(e);
            },
        };
        let choice = selector(&message.header);
        match choice {
            Err(e) => Err(e),
            Ok(None) => Err(JoseError::NoApplicableAlgorithm),
            Ok(Some(decrypter)) => {
                match open_message(&message, decrypter, &self.acceptable_criticals) {
                    Ok(payload) => Ok((payload, message.header)),
                    Err(e) => Err(e),
                }
            },
        }
    }

    /// Writes the flattened JSON text of a payload with the random bytes
    /// given: `seed` for the content-encryption key, `nonce` for the key
    /// wrapping, `iv` for the content.
    #[verifier::rlimit(50)]
    pub fn serialize_flattened_json_with(
        &self,
        payload: &[u8],
        protected: Option<&JweHeader>,
        unprotected: Option<&JweHeader>,
        header: Option<&JweHeader>,
        aad: Option<&[u8]>,
        encrypter: &JweEncrypter,
        seed: &[u8],
        nonce: &[u8],
        iv: &[u8],
    ) -> (r: Result<String, JoseError>)
        requires
            protected matches Some(h) ==> h.wf(),
            unprotected matches Some(h) ==> h.wf(),
            header matches Some(h) ==> h.wf(),
        ensures
            text_result_view(r) == flattened_serialized(
                payload@,
                protected,
                unprotected,
                header,
                slice_view(aad),
                encrypter@,
                seed@,
                nonce@,
                iv@,
            ),
            r matches Ok(text) ==> (flattened_header(
                protected,
                unprotected,
                header,
                encrypter@,
                seed@,
                nonce@,
            ) matches Ok(sent) && (sealed_for(encrypter@, seed@, nonce@) ==> opens_back_json(
                encode_utf8(text@),
                payload@,
                sent,
                unprotected,
                header,
                encrypter@,
                self.acceptable(),
            ))),
    {
        let first = header_or_empty(protected);
        let second = header_or_empty(unprotected);
        let third = header_or_empty(header);
        let merged = match merge_headers(&first, &second, &third) {
            Ok(h) => h,
            Err(e) => {
                return Err(e);
            },
        };
        let enc = match choose_encryption(&merged) {
            Ok(enc) => enc,
            Err(e) => {
                return Err(e);
            },
        };
        let zip = match choose_compression(&merged) {
            Ok(zip) => zip,
            Err(e) => {
                return Err(e);
            },
        };
        let content_key = match encrypter.content_key(enc, seed, nonce, &merged) {
            Ok(k) => k,
            Err(e) => {
                return Err(e);
            },
        };
        let cek: &[u8] = content_key.as_slice();
        let mut out = first;
        let encrypted_key = match encrypter.wrap_key_for(cek, nonce, &merged, &mut out) {
            Ok(k) => k,
            Err(e) => {
                return Err(e);
            },
        };
        let ghost wrapped = out@;
        match encrypter.key_id() {
            Some(id) => {
                if merged.claim("kid").is_none() {
                    out.set_key_id(id);
                }
            },
            None => {},
        }
        let ghost identified = out@;
        out.set_algorithm(encrypter.algorithm().name());
        assert(out@ == header_sealed(wrapped, merged@, encrypter@));
        let clash = out.merge(&second).is_err() || out.merge(&third).is_err();
        assert(clash == (share_name(out@, header_view(unprotected)) || share_name(
            out@,
            header_view(header),
        )));
        if clash {
            return Err(JoseError::HeaderConflict);
        }
        let key: Option<&[u8]> = match &encrypted_key {
            Some(k) => Some(k.as_slice()),
            None => None,
        };
        let text = match seal_flattened(
            &out,
            unprotected,
            header,
            aad,
            enc,
            zip,
            cek,
            key,
            iv,
            payload,
        ) {
            Ok(text) => text,
            Err(e) => {
                return Err(e);
            },
        };
        match text_from_utf8(text) {
            Some(s) => {
                proof {
                    vstd::utf8::decode_utf8_encode_utf8(text@);
                    if sealed_for(encrypter@, seed@, nonce@) {
                        lemma_pairs_recover(
                            encrypter@,
                            cek@,
                            nonce@,
                            merged@,
                            header_view(protected),
                            bytes_view(encrypted_key),
                            wrapped,
                        );
                        lemma_flattened_round_trip(
                            text@,
                            payload@,
                            protected,
                            unprotected,
                            header,
                            wrapped,
                            identified,
                            out@,
                            encrypter@,
                            self.acceptable(),
                            enc,
                            zip,
                            cek@,
                            nonce@,
                            bytes_view(encrypted_key),
                        );
                    }
                }
                Ok(s)
            },
            None => Err(JoseError::MalformedInput),
        }
    }

    /// Writes the flattened JSON text of a payload under a protected, a
    /// shared and a recipient's header, any of which may be absent, and an
    /// encrypter. The random bytes are drawn here.
#[verifier::rlimit(40)]
    pub fn serialize_flattened_json(
        &self,
        payload: &[u8],
        protected: Option<&JweHeader>,
        unprotected: Option<&JweHeader>,
        header: Option<&JweHeader>,
        aad: Option<&[u8]>,
        encrypter: &JweEncrypter,
    ) -> (r: Result<String, JoseError>)
        requires
            protected matches Some(h) ==> h.wf(),
            unprotected matches Some(h) ==> h.wf(),
            header matches Some(h) ==> h.wf(),
        ensures
            flattened_written(
                payload@,
                protected,
                unprotected,
                header,
                slice_view(aad),
                encrypter@,
                self.acceptable(),
                text_result_view(r),
            ),
    {
        let first = header_or_empty(protected);
        let second = header_or_empty(unprotected);
        let third = header_or_empty(header);
        let merged = match merge_headers(&first, &second, &third) {
            Ok(h) => h,
            Err(e) => {
                return Err(e);
            },
        };
        let enc = match choose_encryption(&merged) {
            Ok(enc) => enc,
            Err(e) => {
                return Err(e);
            },
        };
        match choose_compression(&merged) {
            Ok(_) => {},
            Err(e) => {
                return Err(e);
            },
        }
        let seed = if encrypter.algorithm().derives_key() {
            Vec::new()
        } else {
            match random_bytes(enc.key_len()) {
                Some(seed) => seed,
                None => {
                    return Err(JoseError::RandomSourceFailed);
                },
            }
        };
        let nonce = match encrypter.draw(seed.as_slice()) {
            Ok(nonce) => nonce,
            Err(e) => {
                proof {
                    if e == JoseError::KeyMismatch && encrypter@.algorithm.shared_key() {
                        let nonce = Seq::new(encrypter@.salt_len, |i: int| 0u8);
                        let iv = Seq::new(enc.spec_iv_len(), |i: int| 0u8);
                        assert(drawn_for(enc, encrypter@, seed@, nonce, iv));
                        assert(flattened_serialized(
                            payload@,
                            protected,
                            unprotected,
                            header,
                            slice_view(aad),
                            encrypter@,
                            seed@,
                            nonce,
                            iv,
                        ) == Err::<Seq<u8>, JoseError>(
                            JoseError::KeyMismatch,
                        ));
                    }
                }
                return Err(e);
            },
        };
        let iv = match random_bytes(enc.iv_len()) {
            Some(iv) => iv,
            None => {
                return Err(JoseError::RandomSourceFailed);
            },
        };
        let r = self.serialize_flattened_json_with(
            payload,
            protected,
            unprotected,
            header,
            aad,
            encrypter,
            seed.as_slice(),
            nonce.as_slice(),
            iv.as_slice(),
        );
        proof {
            assert(drawn_for(enc, encrypter@, seed@, nonce@, iv@));
            assert(flattened_serialized(
                payload@,
                protected,
                unprotected,
                header,
                slice_view(aad),
                encrypter@,
                seed@,
                nonce@,
                iv@,
            ) == text_result_view(r));
        }
        r
    }

    /// Writes the flattened JSON text of a payload under the encrypter that
    /// `selector` picks for the merged header. Headers that share a name are
    /// refused before the selector is asked; where it picks none, no
    /// algorithm applies.
    pub fn serialize_flattened_json_with_selector<'a, F>(
        &self,
        payload: &[u8],
        protected: Option<&JweHeader>,
        unprotected: Option<&JweHeader>,
        header: Option<&JweHeader>,
        aad: Option<&[u8]>,
        selector: F,
    ) -> (r: Result<String, JoseError>) where F: Fn(&JweHeader) -> Option<&'a JweEncrypter>
        requires
            protected matches Some(h) ==> h.wf(),
            unprotected matches Some(h) ==> h.wf(),
            header matches Some(h) ==> h.wf(),
            forall|h: &JweHeader| h.wf() ==> call_requires(selector, (h,)),
        ensures
            match headers_merged(header_view(protected), header_view(unprotected), header_view(header)) {
                Err(e) => r == Err::<String, JoseError>(e),
                Ok(merged) => exists|asked: &JweHeader, choice: Option<&'a JweEncrypter>|
                    {
                        &&& asked@ == merged
                        &&& #[trigger] call_ensures(selector, (asked,), choice)
                        &&& match choice {
                            Some(encrypter) => flattened_written(
                                payload@,
                                protected,
                                unprotected,
                                header,
                                slice_view(aad),
                                encrypter@,
                                self.acceptable(),
                                text_result_view(r),
                            ),
                            None => r == Err::<String, JoseError>(
                                JoseError::NoApplicableAlgorithm,
                            ),
                        }
                    },
            },
    {
        let first = header_or_empty(protected);
        let second = header_or_empty(unprotected);
        let third = header_or_empty(header);
        let merged = match merge_headers(&first, &second, &third) {
            Ok(h) => h,
            Err(e) => {
                return Err(e);
            },
        };
        let choice = selector(&merged);
        match choice {
            Some(encrypter) => self.serialize_flattened_json(
                payload,
                protected,
                unprotected,
                header,
                aad,
                encrypter,
            ),
            None => Err(JoseError::NoApplicableAlgorithm),
        }
    }

    /// Writes the general JSON text of a payload for several recipients, with
    /// the random bytes given: `seed` for the content-encryption key, one of
    /// `nonces` for each recipient's key wrapping, `iv` for the content.
#[verifier::rlimit(40)]
    pub fn serialize_general_json_with(
        &self,
        payload: &[u8],
        protected: Option<&JweHeader>,
        unprotected: Option<&JweHeader>,
        recipients: &[Addressee],
        aad: Option<&[u8]>,
        seed: &[u8],
        nonces: &Vec<Vec<u8>>,
        iv: &[u8],
    ) -> (r: Result<String, JoseError>)
        requires
            protected matches Some(h) ==> h.wf(),
            unprotected matches Some(h) ==> h.wf(),
            addressees_wf(recipients@),
        ensures
            text_result_view(r) == general_serialized(
                payload@,
                protected,
                unprotected,
                recipients@,
                slice_view(aad),
                seed@,
                crate::compact::parts_view(nonces@),
                iv@,
            ),
            r matches Ok(text) ==> general_opens_back(
                encode_utf8(text@),
                payload@,
                protected,
                unprotected,
                recipients@,
                seed@,
                crate::compact::parts_view(nonces@),
                self.acceptable(),
            ),
    {
        if recipients.len() == 0 || nonces.len() != recipients.len() || (recipients.len() > 1
            && any_derives(recipients)) {
            return Err(JoseError::NoApplicableAlgorithm);
        }
        let first = header_or_empty(protected);
        let second = header_or_empty(unprotected);
        let third = header_or_empty(recipients[0].0);
        let merged = match merge_headers(&first, &second, &third) {
            Ok(h) => h,
            Err(e) => {
                return Err(e);
            },
        };
        let shared = match first.merge(&second) {
            Ok(h) => h,
            Err(e) => {
                return Err(e);
            },
        };
        let enc = match choose_encryption(&merged) {
            Ok(enc) => enc,
            Err(e) => {
                return Err(e);
            },
        };
        let zip = match choose_compression(&merged) {
            Ok(zip) => zip,
            Err(e) => {
                return Err(e);
            },
        };
        assert(crate::compact::parts_view(nonces@)[0] == nonces@[0]@);
        let cek = match recipients[0].1.content_key(enc, seed, nonces[0].as_slice(), &merged) {
            Ok(k) => k,
            Err(e) => {
                return Err(e);
            },
        };
        let sent = match send_to_all(&shared, recipients, nonces, enc, zip, cek.as_slice()) {
            Ok(sent) => sent,
            Err(e) => {
                return Err(e);
            },
        };
        let text = match seal_general(
            protected,
            unprotected,
            &sent,
            aad,
            enc,
            zip,
            cek.as_slice(),
            iv,
            payload,
        ) {
            Ok(text) => text,
            Err(e) => {
                return Err(e);
            },
        };
        match text_from_utf8(text) {
            Some(s) => {
                proof {
                    vstd::utf8::decode_utf8_encode_utf8(text@);
                    lemma_general_round_trip(
                        text@,
                        payload@,
                        protected,
                        unprotected,
                        recipients@,
                        seed@,
                        crate::compact::parts_view(nonces@),
                        self.acceptable(),
                        enc,
                        zip,
                        cek@,
                        crate::json_form::recipients_view(sent@),
                    );
                }
                Ok(s)
            },
            None => Err(JoseError::MalformedInput),
        }
    }

    /// Writes the general JSON text of a payload for several recipients, each
    /// with a header of its own, which may be absent, and an encrypter. The
    /// random bytes are drawn here.
    #[verifier::loop_isolation(false)]
#[verifier::rlimit(40)]
    pub fn serialize_general_json(
        &self,
        payload: &[u8],
        protected: Option<&JweHeader>,
        unprotected: Option<&JweHeader>,
        recipients: &[Addressee],
        aad: Option<&[u8]>,
    ) -> (r: Result<String, JoseError>)
        requires
            protected matches Some(h) ==> h.wf(),
            unprotected matches Some(h) ==> h.wf(),
            addressees_wf(recipients@),
        ensures
            general_written(
                payload@,
                protected,
                unprotected,
                recipients@,
                slice_view(aad),
                self.acceptable(),
                text_result_view(r),
            ),
    {
        if recipients.len() == 0 || (recipients.len() > 1 && any_derives(recipients)) {
            return Err(JoseError::NoApplicableAlgorithm);
        }
        let first = header_or_empty(protected);
        let second = header_or_empty(unprotected);
        let third = header_or_empty(recipients[0].0);
        let merged = match merge_headers(&first, &second, &third) {
            Ok(h) => h,
            Err(e) => {
                return Err(e);
            },
        };
        let enc = match choose_encryption(&merged) {
            Ok(enc) => enc,
            Err(e) => {
                return Err(e);
            },
        };
        match choose_compression(&merged) {
            Ok(_) => {},
            Err(e) => {
                return Err(e);
            },
        }
        let seed = if any_derives(recipients) {
            Vec::new()
        } else {
            match random_bytes(enc.key_len()) {
                Some(seed) => seed,
                None => {
                    return Err(JoseError::RandomSourceFailed);
                },
            }
        };
        let mut nonces: Vec<Vec<u8>> = Vec::new();
        let mut i: usize = 0;
        while i < recipients.len()
            invariant
                i <= recipients@.len(),
                nonces@.len() == i,
                forall|k: int|
                    0 <= k < i ==> drawn((#[trigger] recipients@[k]).1@, seed@, nonces@[k]@),
            decreases recipients@.len() - i,
        {
            match recipients[i].1.draw(seed.as_slice()) {
                Ok(nonce) => {
                    nonces.push(nonce);
                },
                Err(e) => {
                    assert(e == JoseError::KeyMismatch ==> draw_refuses(recipients@)) by {
                        let x = recipients@[i as int];
                    }
                    return Err(e);
                },
            }
            i += 1;
        }
        let iv = match random_bytes(enc.iv_len()) {
            Some(iv) => iv,
            None => {
                return Err(JoseError::RandomSourceFailed);
            },
        };
        let r = self.serialize_general_json_with(
            payload,
            protected,
            unprotected,
            recipients,
            aad,
            seed.as_slice(),
            &nonces,
            iv.as_slice(),
        );
        proof {
            let drawn = crate::compact::parts_view(nonces@);
            assert(all_drawn(recipients@, seed@, drawn));
            assert(general_serialized(
                payload@,
                protected,
                unprotected,
                recipients@,
                slice_view(aad),
                seed@,
                drawn,
                iv@,
            ) == text_result_view(r));
        }
        r
    }

    /// Opens a text in JSON form, flattened or general, with a decrypter.
    pub fn deserialize_json(&self, input: &str, decrypter: &JweDecrypter) -> (r: Result<
        (Vec<u8>, JweHeader),
        JoseError,
    >)
        ensures
            opened_view(r) == json_opened(encode_utf8(input@), decrypter@, self.acceptable()),
            r matches Ok((_, h)) ==> h.wf(),
    {
        let message = match JweJsonMessage::parse(input.as_bytes()) {
            Ok(m) => m,
            Err(e) => {
                return Err(e);
            },
        };
        message.open(decrypter, &self.acceptable_criticals)
    }

    /// Opens a text in JSON form with the decrypters that `selector` picks.
    /// It is asked for each recipient in turn, with the header that holds for
    /// that recipient, until one of them opens. Where it fails, so does this;
    /// where it picks none, the recipient is passed over. Where no recipient
    /// opens, the failure is that of the first recipient to which a decrypter
    /// applied, or that no algorithm applies.
    #[verifier::loop_isolation(false)]
#[verifier::rlimit(40)]
    pub fn deserialize_json_with_selector<'a, F>(&self, input: &str, selector: F) -> (r: Result<
        (Vec<u8>, JweHeader),
        JoseError,
    >) where F: Fn(&JweHeader) -> Result<Option<&'a JweDecrypter>, JoseError>
        requires
            forall|h: &JweHeader| h.wf() ==> call_requires(selector, (h,)),
        ensures
            match json_message_parsed(encode_utf8(input@)) {
                Err(e) => r == Err::<(Vec<u8>, JweHeader), JoseError>(e),
                Ok(message) => selected_outcome(selector, message, self.acceptable(), opened_view(r)),
            },
            r matches Ok((_, h)) ==> h.wf(),
    {
        let message = match JweJsonMessage::parse(input.as_bytes()) {
            Ok(m) => m,
            Err(e) => {
                return Err(e);
            },
        };
        let ghost m = message@;
        let ghost names = self.acceptable();
        let ghost mut choices: Seq<Result<Option<&'a JweDecrypter>, JoseError>> = Seq::empty();
        let mut failure: Option<JoseError> = None;
        let mut i: usize = 0;
        while i < message.recipients.len()
            invariant
                i <= message.recipients@.len(),
                m == message@,
                message.wf(),
                choices.len() == i,
                all_asked(selector, m, choices),
                scanned(m, names, choices, i as int) == Scan::Searching(failure),
            decreases message.recipients@.len() - i,
        {
            let recipient = &message.recipients[i];
            assert(recipient@ == m.recipients[i as int]);
            let choice = selector(&recipient.header);
            let ghost before = choices;
            proof {
                choices = choices.push(choice);
                assert(asked_at(selector, m, i as int, &recipient.header, choices[i as int]));
                assert forall|k: int| 0 <= k < choices.len() implies #[trigger] was_asked(
                    selector,
                    m,
                    k,
                    choices[k],
                ) by {
                    if k < i {
                        assert(choices[k] == before[k]);
                        assert(was_asked(selector, m, k, before[k]));
                    } else {
                        assert(asked_at(selector, m, k, &recipient.header, choices[k]));
                    }
                }
                assert(choices.len() == i + 1);
                assert(all_asked(selector, m, choices));
                lemma_scanned_prefix(m, names, before, choices, i as int);
                assert(scanned(m, names, choices, choices.len() as int) == scan_step(
                    m,
                    names,
                    i as int,
                    Scan::Searching(failure),
                    choice,
                ));
            }
            match choice {
                Err(e) => {
                    assert(selected_outcome(
                        selector,
                        m,
                        names,
                        Err::<(Seq<u8>, Claims), JoseError>(e),
                    ));
                    return Err(e);
                },
                Ok(None) => {},
                Ok(Some(decrypter)) => {
                    let key: Option<&[u8]> = match &recipient.encrypted_key {
                        Some(k) => Some(k.as_slice()),
                        None => None,
                    };
                    let opened = crate::message::open_parts(
                        &recipient.header,
                        key,
                        message.aad.as_slice(),
                        message.iv.as_slice(),
                        message.ciphertext.as_slice(),
                        message.tag.as_slice(),
                        decrypter,
                        &self.acceptable_criticals,
                    );
                    assert(crate::json_form::recipient_sealed(m, i as int) == (Sealed {
                        aad: message.aad@,
                        claims: recipient.header@,
                        encrypted_key: slice_view(key),
                        iv: message.iv@,
                        ciphertext: message.ciphertext@,
                        tag: message.tag@,
                    }));
                    assert(key_view(opened) == recipient_opened(m, i as int, decrypter@, names));
                    match opened {
                        Ok(payload) => {
                            let header = recipient.header.clone();
                            assert(selected_outcome(
                                selector,
                                m,
                                names,
                                Ok::<(Seq<u8>, Claims), JoseError>((payload@, header@)),
                            ));
                            return Ok((payload, header));
                        },
                        Err(e) => {
                            if failure.is_none() {
                                match e {
                                    JoseError::NoApplicableAlgorithm => {},
                                    _ => {
                                        failure = Some(e);
                                    },
                                }
                            }
                        },
                    }
                },
            }
            i += 1;
        }
        match failure {
            Some(e) => Err(e),
            None => Err(JoseError::NoApplicableAlgorithm),
        }
    }

    /// Opens a compact text with a decrypter.
    pub fn deserialize_compact(&self, input: &str, decrypter: &JweDecrypter) -> (r: Result<
        (Vec<u8>, JweHeader),
        JoseError,
    >)
        ensures
            opened_view(r) == compact_opened(encode_utf8(input@), decrypter@, self.acceptable()),
            r matches Ok((_, h)) ==> h.wf(),
    {
        let message = match JweMessage::parse_compact(input.as_bytes()) {
            Ok(m) => m,
            Err(e) => {
                return Err(e);
            },
        };
        match open_message(&message, decrypter, &self.acceptable_criticals) {
            Ok(payload) => Ok((payload, message.header)),
            Err(e) => Err(e),
        }
    }
}

} // verus!
