use jwe::{deserialize_compact, serialize_compact, Dir, JoseError, JsonValue, JweHeader};

fn random(len: usize) -> Vec<u8> {
    let mut bytes = vec![0u8; len];
    openssl::rand::rand_bytes(&mut bytes).unwrap();
    bytes
}

#[test]
fn test_jwe_compact_serialization() -> Result<(), JoseError> {
    for enc in vec![
        "A128CBC-HS256",
        "A192CBC-HS384",
        "A256CBC-HS512",
        "A128GCM",
        "A256GCM",
        "A256GCM",
    ] {
        let mut src_header = JweHeader::new();
        src_header.set_content_encryption(enc);
        src_header.set_token_type("JWT");
        let src_payload = b"test payload!";

        let alg = Dir;
        let key = match enc {
            "A128CBC-HS256" => random(32),
            "A192CBC-HS384" => random(48),
            "A256CBC-HS512" => random(64),
            "A128GCM" => random(16),
            "A192GCM" => random(24),
            "A256GCM" => random(32),
            _ => unreachable!(),
        };
        let encrypter = alg.encrypter_from_bytes(&key)?;
        let jwe = serialize_compact(src_payload, &src_header, &encrypter)?;

        let decrypter = alg.decrypter_from_bytes(&key)?;
        let (dst_payload, dst_header) = deserialize_compact(&jwe, &decrypter)?;

        src_header.set_claim("alg", Some(JsonValue::String(alg.name().to_string())))?;
        assert_eq!(src_header, dst_header);
        assert_eq!(src_payload.to_vec(), dst_payload);
    }

    Ok(())
}

fn opens_back(
    encrypter: &jwe::JweEncrypter,
    decrypter: &jwe::JweDecrypter,
    name: &str,
    with_key_id: bool,
    writes_parameters: bool,
) {
    for enc in vec![
        "A128CBC-HS256",
        "A192CBC-HS384",
        "A256CBC-HS512",
        "A128GCM",
        "A192GCM",
        "A256GCM",
    ] {
        for payload in vec![Vec::new(), b"test payload!".to_vec(), vec![0xa5u8; 100]] {
            let mut header = JweHeader::new();
            header.set_content_encryption(enc);
            header.set_token_type("JWT");
            let mut expected = header.clone();
            let compact = serialize_compact(&payload, &header, encrypter).unwrap();
            let (opened, sent) = deserialize_compact(&compact, decrypter).unwrap();
            assert_eq!(opened, payload);
            assert_eq!(sent.algorithm(), Some(name));
            assert_eq!(sent.content_encryption(), Some(enc));
            assert_eq!(sent.token_type(), Some("JWT"));
            if with_key_id {
                assert_eq!(sent.key_id(), Some("the key"));
            }
            let json = jwe::serialize_flattened_json(
                &payload,
                Some(&header),
                None,
                None,
                Some(b"bound"),
                encrypter,
            )
            .unwrap();
            let (opened, sent_json) = jwe::deserialize_json(&json, decrypter).unwrap();
            assert_eq!(opened, payload);
            assert_eq!(sent_json.algorithm(), Some(name));
            if !writes_parameters {
                if with_key_id {
                    expected.set_key_id("the key");
                }
                expected.set_algorithm(name);
                assert_eq!(sent, expected);
                assert_eq!(sent_json, expected);
            }
        }
    }
}

#[test]
fn every_shared_key_algorithm_opens_back_with_every_content_encryption() {
    for (enc, len) in vec![
        ("A128CBC-HS256", 32),
        ("A192CBC-HS384", 48),
        ("A256CBC-HS512", 64),
        ("A128GCM", 16),
        ("A192GCM", 24),
        ("A256GCM", 32),
    ] {
        let key = random(len);
        let mut header = JweHeader::new();
        header.set_content_encryption(enc);
        let encrypter = Dir.encrypter_from_bytes(&key).unwrap();
        let decrypter = Dir.decrypter_from_bytes(&key).unwrap();
        for payload in vec![Vec::new(), vec![7u8; 33]] {
            let text = serialize_compact(&payload, &header, &encrypter).unwrap();
            assert_eq!(deserialize_compact(&text, &decrypter).unwrap().0, payload);
        }
    }
    let wraps = vec![
        (jwe::A128KW.algorithm(), 16),
        (jwe::A192KW.algorithm(), 24),
        (jwe::A256KW.algorithm(), 32),
        (jwe::A128GCMKW.algorithm(), 16),
        (jwe::A192GCMKW.algorithm(), 24),
        (jwe::A256GCMKW.algorithm(), 32),
        (jwe::PBES2_HS256_A128KW.algorithm(), 9),
        (jwe::PBES2_HS384_A192KW.algorithm(), 20),
        (jwe::PBES2_HS512_A256KW.algorithm(), 1),
    ];
    for (i, (algorithm, len)) in wraps.into_iter().enumerate() {
        let key = random(len);
        let mut encrypter = algorithm.encrypter_from_bytes(&key).unwrap();
        let mut decrypter = algorithm.decrypter_from_bytes(&key).unwrap();
        if i % 2 == 0 {
            encrypter.set_key_id("the key");
            decrypter.set_key_id("the key");
        }
        opens_back(&encrypter, &decrypter, algorithm.name(), i % 2 == 0, i >= 3);
    }
}

#[test]
fn a_key_of_forty_bytes_is_no_key_for_the_larger_composites() {
    for enc in vec!["A192CBC-HS384", "A256CBC-HS512"] {
        let mut header = JweHeader::new();
        header.set_content_encryption(enc);
        let encrypter = Dir.encrypter_from_bytes(&random(40)).unwrap();
        assert_eq!(
            serialize_compact(b"test payload!", &header, &encrypter),
            Err(JoseError::KeyMismatch)
        );
    }
}
