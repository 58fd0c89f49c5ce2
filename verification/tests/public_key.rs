use jwe::{
    deserialize_compact, deserialize_json, serialize_compact, serialize_flattened_json,
    JoseError, JsonValue, JweContext, JweHeader, ECDH_ES, ECDH_ES_A128KW, ECDH_ES_A192KW, ECDH_ES_A256KW,
    RSA1_5, RSA_OAEP, RSA_OAEP_256, RSA_OAEP_384, RSA_OAEP_512,
};
use openssl::ec::{EcGroup, EcKey};
use openssl::nid::Nid;
use openssl::pkey::PKey;
use openssl::rsa::Rsa;

fn rsa_pair() -> (Vec<u8>, Vec<u8>) {
    let key = PKey::from_rsa(Rsa::generate(2048).unwrap()).unwrap();
    (key.public_key_to_der().unwrap(), key.private_key_to_der().unwrap())
}

fn ec_pair(curve: Nid) -> (Vec<u8>, Vec<u8>) {
    let group = EcGroup::from_curve_name(curve).unwrap();
    let key = PKey::from_ec_key(EcKey::generate(&group).unwrap()).unwrap();
    (key.public_key_to_der().unwrap(), key.private_key_to_der().unwrap())
}

#[test]
fn rsa_round_trip_in_compact_form() {
    let (public, private) = rsa_pair();
    for alg in vec![RSA1_5, RSA_OAEP, RSA_OAEP_256, RSA_OAEP_384, RSA_OAEP_512] {
        let mut header = JweHeader::new();
        header.set_content_encryption("A128CBC-HS256");
        let encrypter = alg.encrypter_from_der(&public).unwrap();
        let text = serialize_compact(b"for the holder of the key", &header, &encrypter).unwrap();
        assert_eq!(text.split('.').count(), 5);
        let decrypter = alg.decrypter_from_der(&private).unwrap();
        let (payload, opened) = deserialize_compact(&text, &decrypter).unwrap();
        assert_eq!(payload, b"for the holder of the key".to_vec());
        assert_eq!(opened.algorithm(), Some(alg.name()));
    }
}

#[test]
fn rsa_with_another_private_key_fails_to_decrypt() {
    let (public, _) = rsa_pair();
    let (_, other) = rsa_pair();
    let mut header = JweHeader::new();
    header.set_content_encryption("A256GCM");
    let encrypter = RSA_OAEP_256.encrypter_from_der(&public).unwrap();
    let text = serialize_compact(b"secret", &header, &encrypter).unwrap();
    let decrypter = RSA_OAEP_256.decrypter_from_der(&other).unwrap();
    assert_eq!(deserialize_compact(&text, &decrypter).err(), Some(JoseError::DecryptionFailed));
}

#[test]
fn rsa_with_bytes_that_are_no_key_is_a_key_mismatch() {
    let mut header = JweHeader::new();
    header.set_content_encryption("A256GCM");
    let encrypter = RSA_OAEP.encrypter_from_der(b"no key at all").unwrap();
    assert_eq!(
        serialize_compact(b"secret", &header, &encrypter),
        Err(JoseError::KeyMismatch)
    );
    assert_eq!(RSA_OAEP.encrypter_from_der(b"").err(), Some(JoseError::KeyMismatch));
}

#[test]
fn key_agreement_round_trip_on_each_curve() {
    for (curve, name, len) in vec![
        (Nid::X9_62_PRIME256V1, "P-256", 43),
        (Nid::SECP384R1, "P-384", 64),
        (Nid::SECP521R1, "P-521", 88),
    ] {
        let (public, private) = ec_pair(curve);
        for enc in vec!["A128GCM", "A256CBC-HS512"] {
            let mut header = JweHeader::new();
            header.set_content_encryption(enc);
            let encrypter = ECDH_ES.encrypter_from_der(&public).unwrap();
            let text = serialize_compact(b"agreed", &header, &encrypter).unwrap();
            let segments: Vec<&str> = text.split('.').collect();
            assert_eq!(segments.len(), 5);
            assert_eq!(segments[1], "");
            let decrypter = ECDH_ES.decrypter_from_der(&private).unwrap();
            let (payload, opened) = deserialize_compact(&text, &decrypter).unwrap();
            assert_eq!(payload, b"agreed".to_vec());
            match opened.claim("epk") {
                Some(JsonValue::Object(members)) => {
                    assert_eq!(members[0], ("kty".to_string(), JsonValue::String("EC".to_string())));
                    assert_eq!(members[1], ("crv".to_string(), JsonValue::String(name.to_string())));
                    match &members[2].1 {
                        JsonValue::String(x) => assert_eq!(x.len(), len),
                        _ => panic!("x is no string"),
                    }
                },
                _ => panic!("no ephemeral key in the header"),
            }
        }
    }
}

#[test]
fn key_agreement_with_key_wrap_round_trip_in_json_form() {
    let (public, private) = ec_pair(Nid::X9_62_PRIME256V1);
    for alg in vec![ECDH_ES_A128KW, ECDH_ES_A192KW, ECDH_ES_A256KW] {
        let mut protected = JweHeader::new();
        protected.set_content_encryption("A192CBC-HS384");
        protected
            .set_claim("apu", Some(JsonValue::String("QWxpY2U".to_string())))
            .unwrap();
        protected
            .set_claim("apv", Some(JsonValue::String("Qm9i".to_string())))
            .unwrap();
        let encrypter = alg.encrypter_from_der(&public).unwrap();
        let text =
            serialize_flattened_json(b"wrapped", Some(&protected), None, None, None, &encrypter)
                .unwrap();
        let decrypter = alg.decrypter_from_der(&private).unwrap();
        let (payload, opened) = deserialize_json(&text, &decrypter).unwrap();
        assert_eq!(payload, b"wrapped".to_vec());
        assert_eq!(opened.algorithm(), Some(alg.name()));
    }
}

#[test]
fn key_agreement_with_another_private_key_fails_to_decrypt() {
    let (public, _) = ec_pair(Nid::X9_62_PRIME256V1);
    let (_, other) = ec_pair(Nid::X9_62_PRIME256V1);
    let mut header = JweHeader::new();
    header.set_content_encryption("A128GCM");
    let encrypter = ECDH_ES.encrypter_from_der(&public).unwrap();
    let text = serialize_compact(b"agreed", &header, &encrypter).unwrap();
    let decrypter = ECDH_ES.decrypter_from_der(&other).unwrap();
    assert_eq!(deserialize_compact(&text, &decrypter).err(), Some(JoseError::DecryptionFailed));
}

#[test]
fn the_encrypter_of_a_decrypter_pairs_with_it() {
    let (public, private) = rsa_pair();
    let mut decrypter = RSA_OAEP_256.decrypter_from_der(&private).unwrap();
    decrypter.set_key_id("rsa");
    let encrypter = decrypter.encrypter().unwrap();
    assert_eq!(encrypter.key_id(), Some("rsa"));
    assert_eq!(encrypter.algorithm().name(), "RSA-OAEP-256");
    let mut header = JweHeader::new();
    header.set_content_encryption("A128GCM");
    let text = serialize_compact(b"to the pair", &header, &encrypter).unwrap();
    let (payload, opened) = deserialize_compact(&text, &decrypter).unwrap();
    assert_eq!(payload, b"to the pair".to_vec());
    assert_eq!(opened.key_id(), Some("rsa"));
    let given = RSA_OAEP_256.encrypter_from_der(&public).unwrap();
    let again = serialize_compact(b"to the pair", &header, &given).unwrap();
    assert_eq!(
        deserialize_compact(&again, &decrypter).err(),
        Some(JoseError::NoApplicableAlgorithm)
    );
    decrypter.remove_key_id();
    assert_eq!(deserialize_compact(&again, &decrypter).unwrap().0, b"to the pair".to_vec());

    let (_, ec_private) = ec_pair(Nid::SECP384R1);
    let agreeing = ECDH_ES_A128KW.decrypter_from_der(&ec_private).unwrap();
    let sender = agreeing.encrypter().unwrap();
    let text = serialize_compact(b"agreed", &header, &sender).unwrap();
    assert_eq!(deserialize_compact(&text, &agreeing).unwrap().0, b"agreed".to_vec());

    let shared = jwe::A128KW.decrypter_from_bytes(&[7u8; 16]).unwrap();
    let same = shared.encrypter().unwrap();
    let text = serialize_compact(b"shared", &header, &same).unwrap();
    assert_eq!(deserialize_compact(&text, &shared).unwrap().0, b"shared".to_vec());

    let broken = RSA1_5.decrypter_from_der(b"no key at all").unwrap();
    assert_eq!(broken.encrypter().err(), Some(JoseError::KeyMismatch));
}

fn parties() -> JweHeader {
    let mut header = JweHeader::new();
    header.set_claim("apu", Some(JsonValue::String("QWxpY2U".to_string()))).unwrap();
    header.set_claim("apv", Some(JsonValue::String("Qm9i".to_string()))).unwrap();
    header
}

#[test]
fn the_parties_of_an_agreement_may_stand_in_an_unprotected_header() {
    let (public, private) = ec_pair(Nid::X9_62_PRIME256V1);
    let mut protected = JweHeader::new();
    protected.set_content_encryption("A128GCM");
    let named = parties();
    for alg in vec![ECDH_ES, ECDH_ES_A128KW, ECDH_ES_A256KW] {
        let encrypter = alg.encrypter_from_der(&public).unwrap();
        let decrypter = alg.decrypter_from_der(&private).unwrap();
        let shared = serialize_flattened_json(
            b"between us",
            Some(&protected),
            Some(&named),
            None,
            None,
            &encrypter,
        )
        .unwrap();
        let (payload, opened) = deserialize_json(&shared, &decrypter).unwrap();
        assert_eq!(payload, b"between us".to_vec());
        assert_eq!(opened.claim("apu"), Some(&JsonValue::String("QWxpY2U".to_string())));
        let own = serialize_flattened_json(
            b"between us",
            Some(&protected),
            None,
            Some(&named),
            None,
            &encrypter,
        )
        .unwrap();
        assert_eq!(deserialize_json(&own, &decrypter).unwrap().0, b"between us".to_vec());
    }
}

#[test]
fn the_parties_of_an_agreement_may_stand_in_the_header_of_all_recipients() {
    let (public, private) = ec_pair(Nid::SECP384R1);
    let mut protected = parties();
    protected.set_content_encryption("A128CBC-HS256");
    let encrypter = ECDH_ES_A192KW.encrypter_from_der(&public).unwrap();
    let decrypter = ECDH_ES_A192KW.decrypter_from_der(&private).unwrap();
    let other = jwe::A128KW.encrypter_from_bytes(&[9u8; 16]).unwrap();
    let recipients = vec![(None, &other), (None, &encrypter)];
    let text = JweContext::new()
        .serialize_general_json(b"to both", Some(&protected), None, &recipients, None)
        .unwrap();
    let (payload, opened) = deserialize_json(&text, &decrypter).unwrap();
    assert_eq!(payload, b"to both".to_vec());
    assert_eq!(opened.algorithm(), Some("ECDH-ES+A192KW"));
    assert_eq!(opened.claim("apv"), Some(&JsonValue::String("Qm9i".to_string())));
}

#[test]
fn a_private_key_whose_parts_do_not_belong_together_has_no_encrypter() {
    let rsa = Rsa::generate(2048).unwrap();
    let mut d = rsa.d().to_owned().unwrap();
    d.add_word(2).unwrap();
    let broken = Rsa::from_private_components(
        rsa.n().to_owned().unwrap(),
        rsa.e().to_owned().unwrap(),
        d,
        rsa.p().unwrap().to_owned().unwrap(),
        rsa.q().unwrap().to_owned().unwrap(),
        rsa.dmp1().unwrap().to_owned().unwrap(),
        rsa.dmq1().unwrap().to_owned().unwrap(),
        rsa.iqmp().unwrap().to_owned().unwrap(),
    )
    .unwrap();
    let der = PKey::from_rsa(broken).unwrap().private_key_to_der().unwrap();
    let decrypter = RSA_OAEP.decrypter_from_der(&der).unwrap();
    assert_eq!(decrypter.encrypter().err(), Some(JoseError::KeyMismatch));
    let sound = PKey::from_rsa(rsa).unwrap().private_key_to_der().unwrap();
    assert!(RSA_OAEP.decrypter_from_der(&sound).unwrap().encrypter().is_ok());
}
