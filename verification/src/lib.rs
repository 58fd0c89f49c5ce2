use vstd::prelude::*;

pub mod agreement;
pub mod alg;
pub mod base64url;
pub mod compact;
pub mod content;
pub mod context;
pub mod crypto;
pub mod deflate;
pub mod equality;
pub mod error;
pub mod header;
pub mod json;
pub mod json_form;
pub mod laws;
pub mod message;
pub mod pk;
pub mod round_trip;
pub mod sealing;

pub use crate::alg::AesgcmkwJweAlgorithm;
pub use crate::alg::AeskwJweAlgorithm;
pub use crate::alg::DirectJweAlgorithm;
pub use crate::alg::EcdhEsJweAlgorithm;
pub use crate::alg::JweAlgorithm;
pub use crate::alg::JweDecrypter;
pub use crate::alg::JweEncrypter;
pub use crate::alg::Pbes2HmacAeskwJweAlgorithm;
pub use crate::alg::RsaesJweAlgorithm;
pub use crate::content::JweContentEncryption;
pub use crate::context::JweContext;
pub use crate::error::JoseError;
pub use crate::header::JweHeader;
pub use crate::json::JsonValue;

pub use crate::alg::DirectJweAlgorithm::Dir;

pub use crate::alg::EcdhEsJweAlgorithm::EcdhEs as ECDH_ES;
pub use crate::alg::EcdhEsJweAlgorithm::EcdhEsA128kw as ECDH_ES_A128KW;
pub use crate::alg::EcdhEsJweAlgorithm::EcdhEsA192kw as ECDH_ES_A192KW;
pub use crate::alg::EcdhEsJweAlgorithm::EcdhEsA256kw as ECDH_ES_A256KW;

pub use crate::alg::AeskwJweAlgorithm::A128kw as A128KW;
pub use crate::alg::AeskwJweAlgorithm::A192kw as A192KW;
pub use crate::alg::AeskwJweAlgorithm::A256kw as A256KW;

pub use crate::alg::AesgcmkwJweAlgorithm::A128gcmkw as A128GCMKW;
pub use crate::alg::AesgcmkwJweAlgorithm::A192gcmkw as A192GCMKW;
pub use crate::alg::AesgcmkwJweAlgorithm::A256gcmkw as A256GCMKW;

pub use crate::alg::Pbes2HmacAeskwJweAlgorithm::Pbes2Hs256A128kw as PBES2_HS256_A128KW;
pub use crate::alg::Pbes2HmacAeskwJweAlgorithm::Pbes2Hs384A192kw as PBES2_HS384_A192KW;
pub use crate::alg::Pbes2HmacAeskwJweAlgorithm::Pbes2Hs512A256kw as PBES2_HS512_A256KW;

pub use crate::alg::RsaesJweAlgorithm::Rsa1_5 as RSA1_5;
pub use crate::alg::RsaesJweAlgorithm::RsaOaep as RSA_OAEP;
pub use crate::alg::RsaesJweAlgorithm::RsaOaep256 as RSA_OAEP_256;
pub use crate::alg::RsaesJweAlgorithm::RsaOaep384 as RSA_OAEP_384;
pub use crate::alg::RsaesJweAlgorithm::RsaOaep512 as RSA_OAEP_512;

use crate::alg::slice_view;
use crate::json_form::{json_message_parsed, json_opened, selected_outcome};
use crate::message::{compact_opened, compact_parsed, opened_view};
use crate::sealing::{
    compact_written, flattened_written, header_view, headers_merged, text_result_view,
};
use vstd::utf8::encode_utf8;

verus! {

/// Writes the compact text of a payload under a header and an encrypter, with
/// an engine that accepts no critical name.
pub fn serialize_compact(payload: &[u8], header: &JweHeader, encrypter: &JweEncrypter) -> (r: Result<
    String,
    JoseError,
>)
    requires
        header.wf(),
    ensures
        compact_written(
            payload@,
            header@,
            encrypter@,
            Seq::<Seq<char>>::empty(),
            text_result_view(r),
        ),
{
    JweContext::new().serialize_compact(payload, header, encrypter)
}

/// Writes the compact text of a payload under the encrypter that `selector`
/// picks for the header. Where it picks none, no algorithm applies.
pub fn serialize_compact_with_selector<'a, F>(payload: &[u8], header: &JweHeader, selector: F) -> (r:
    Result<String, JoseError>) where F: Fn(&JweHeader) -> Option<&'a JweEncrypter>
    requires
        header.wf(),
        call_requires(selector, (header,)),
    ensures
        exists|choice: Option<&'a JweEncrypter>|
            {
                &&& #[trigger] call_ensures(selector, (header,), choice)
                &&& match choice {
                    Some(encrypter) => compact_written(
                        payload@,
                        header@,
                        encrypter@,
                        Seq::<Seq<char>>::empty(),
                        text_result_view(r),
                    ),
                    None => r == Err::<String, JoseError>(JoseError::NoApplicableAlgorithm),
                }
            },
{
    JweContext::new().serialize_compact_with_selector(payload, header, selector)
}

/// Writes the flattened JSON text of a payload under a protected, a shared
/// and a recipient's header, any of which may be absent, and an encrypter.
pub fn serialize_flattened_json(
    payload: &[u8],
    protected: Option<&JweHeader>,
    unprotected: Option<&JweHeader>,
    header: Option<&JweHeader>,
    aad: Option<&[u8]>,
    encrypter: &JweEncrypter,
) -> (r: Result<String, JoseError>)
    requires
        protected matches Some(h) ==> h.wf(),
        unprotected matches Some(h) ==> h.wf(),
        header matches Some(h) ==> h.wf(),
    ensures
        flattened_written(
            payload@,
            protected,
            unprotected,
            header,
            slice_view(aad),
            encrypter@,
            Seq::<Seq<char>>::empty(),
            text_result_view(r),
        ),
{
    JweContext::new().serialize_flattened_json(
        payload,
        protected,
        unprotected,
        header,
        aad,
        encrypter,
    )
}

/// Writes the flattened JSON text of a payload under the encrypter that
/// `selector` picks for the merged header. Headers that share a name are
/// refused before the selector is asked; where it picks none, no algorithm
/// applies.
pub fn serialize_flattened_json_with_selector<'a, F>(
    payload: &[u8],
    protected: Option<&JweHeader>,
    unprotected: Option<&JweHeader>,
    header: Option<&JweHeader>,
    aad: Option<&[u8]>,
    selector: F,
) -> (r: Result<String, JoseError>) where F: Fn(&JweHeader) -> Option<&'a JweEncrypter>
    requires
        protected matches Some(h) ==> h.wf(),
        unprotected matches Some(h) ==> h.wf(),
        header matches Some(h) ==> h.wf(),
        forall|h: &JweHeader| h.wf() ==> call_requires(selector, (h,)),
    ensures
        match headers_merged(header_view(protected), header_view(unprotected), header_view(header)) {
            Err(e) => r == Err::<String, JoseError>(e),
            Ok(merged) => exists|asked: &JweHeader, choice: Option<&'a JweEncrypter>|
                {
                    &&& asked@ == merged
                    &&& #[trigger] call_ensures(selector, (asked,), choice)
                    &&& match choice {
                        Some(encrypter) => flattened_written(
                            payload@,
                            protected,
                            unprotected,
                            header,
                            slice_view(aad),
                            encrypter@,
                            Seq::<Seq<char>>::empty(),
                            text_result_view(r),
                        ),
                        None => r == Err::<String, JoseError>(JoseError::NoApplicableAlgorithm),
                    }
                },
        },
{
    JweContext::new().serialize_flattened_json_with_selector(
        payload,
        protected,
        unprotected,
        header,
        aad,
        selector,
    )
}

/// Opens a compact text with a decrypter, with an engine that accepts no
/// critical name.
pub fn deserialize_compact(input: &str, decrypter: &JweDecrypter) -> (r: Result<
    (Vec<u8>, JweHeader),
    JoseError,
>)
    ensures
        opened_view(r) == compact_opened(
            encode_utf8(input@),
            decrypter@,
            Seq::<Seq<char>>::empty(),
        ),
        r matches Ok((_, h)) ==> h.wf(),
{
    JweContext::new().deserialize_compact(input, decrypter)
}

/// Opens a compact text with the decrypter that `selector` picks for the
/// header it reads. Where it picks none, no algorithm applies; where it
/// fails, so does this.
pub fn deserialize_compact_with_selector<'a, F>(input: &str, selector: F) -> (r: Result<
    (Vec<u8>, JweHeader),
    JoseError,
>) where F: Fn(&JweHeader) -> Result<Option<&'a JweDecrypter>, JoseError>
    requires
        forall|h: &JweHeader| h.wf() ==> call_requires(selector, (h,)),
    ensures
        match compact_parsed(encode_utf8(input@)) {
            Err(e) => r == Err::<(Vec<u8>, JweHeader), JoseError>(e),
            Ok(message) => exists|
                header: &JweHeader,
                choice: Result<Option<&'a JweDecrypter>, JoseError>,
            |
                {
                    &&& header@ == message.claims
                    &&& #[trigger] call_ensures(selector, (header,), choice)
                    &&& match choice {
                        Err(e) => r == Err::<(Vec<u8>, JweHeader), JoseError>(e),
                        Ok(None) => r == Err::<(Vec<u8>, JweHeader), JoseError>(
                            JoseError::NoApplicableAlgorithm,
                        ),
                        Ok(Some(decrypter)) => opened_view(r) == compact_opened(
                            encode_utf8(input@),
                            decrypter@,
                            Seq::<Seq<char>>::empty(),
                        ),
                    }
                },
        },
        r matches Ok((_, h)) ==> h.wf(),
{
    JweContext::new().deserialize_compact_with_selector(input, selector)
}

/// Opens a text in JSON form, flattened or general, with a decrypter, with an
/// engine that accepts no critical name.
pub fn deserialize_json(input: &str, decrypter: &JweDecrypter) -> (r: Result<
    (Vec<u8>, JweHeader),
    JoseError,
>)
    ensures
        opened_view(r) == json_opened(encode_utf8(input@), decrypter@, Seq::<Seq<char>>::empty()),
        r matches Ok((_, h)) ==> h.wf(),
{
    JweContext::new().deserialize_json(input, decrypter)
}

/// Opens a text in JSON form with the decrypters that `selector` picks. It is
/// asked for each recipient in turn, with the header that holds for that
/// recipient, until one of them opens. Where it fails, so does this; where it
/// picks none, the recipient is passed over. Where no recipient opens, the
/// failure is that of the first recipient to which a decrypter applied, or
/// that no algorithm applies.
pub fn deserialize_json_with_selector<'a, F>(input: &str, selector: F) -> (r: Result<
    (Vec<u8>, JweHeader),
    JoseError,
>) where F: Fn(&JweHeader) -> Result<Option<&'a JweDecrypter>, JoseError>
    requires
        forall|h: &JweHeader| h.wf() ==> call_requires(selector, (h,)),
    ensures
        match json_message_parsed(encode_utf8(input@)) {
            Err(e) => r == Err::<(Vec<u8>, JweHeader), JoseError>(e),
            Ok(message) => selected_outcome(selector, message, Seq::<Seq<char>>::empty(), opened_view(r)),
        },
        r matches Ok((_, h)) ==> h.wf(),
{
    JweContext::new().deserialize_json_with_selector(input, selector)
}

} // verus!
