use jwe::{
    deserialize_compact, deserialize_compact_with_selector, deserialize_json,
    deserialize_json_with_selector, serialize_compact, serialize_compact_with_selector,
    serialize_flattened_json, serialize_flattened_json_with_selector, Dir, JoseError, JsonValue,
    JweContext, JweDecrypter, JweEncrypter, JweHeader, A128KW, A256KW,
};

fn bytes(len: usize) -> Vec<u8> {
    let mut bytes = vec![0u8; len];
    openssl::rand::rand_bytes(&mut bytes).unwrap();
    bytes
}

fn header_for(enc: &str) -> JweHeader {
    let mut header = JweHeader::new();
    header.set_content_encryption(enc);
    header
}

fn flip(text: &str, at: usize) -> String {
    let mut raw = text.as_bytes().to_vec();
    raw[at] = if raw[at] == b'A' { b'B' } else { b'A' };
    String::from_utf8(raw).unwrap()
}

#[test]
fn a_changed_ciphertext_tag_or_iv_fails_to_decrypt() {
    for enc in vec!["A128CBC-HS256", "A256GCM"] {
        let key = bytes(16);
        let text = serialize_compact(
            b"exactly what was sent",
            &header_for(enc),
            &A128KW.encrypter_from_bytes(&key).unwrap(),
        )
        .unwrap();
        let decrypter = A128KW.decrypter_from_bytes(&key).unwrap();
        assert!(deserialize_compact(&text, &decrypter).is_ok());
        let dots: Vec<usize> = text.match_indices('.').map(|(i, _)| i).collect();
        for segment in 1..5 {
            let changed = flip(&text, dots[segment - 1] + 1);
            assert_eq!(
                deserialize_compact(&changed, &decrypter).err(),
                Some(JoseError::DecryptionFailed),
                "segment {} of {}",
                segment,
                enc
            );
        }
    }
}

#[test]
fn a_changed_protected_header_never_opens() {
    let key = bytes(32);
    let text = serialize_compact(
        b"exactly what was sent",
        &header_for("A256GCM"),
        &Dir.encrypter_from_bytes(&key).unwrap(),
    )
    .unwrap();
    let decrypter = Dir.decrypter_from_bytes(&key).unwrap();
    let first_dot = text.find('.').unwrap();
    for at in 0..first_dot {
        assert!(deserialize_compact(&flip(&text, at), &decrypter).is_err());
    }
    let respelled = format!(
        "{}{}",
        "eyJhbGciOiJkaXIiLCJlbmMiOiJBMjU2R0NNIn0",
        &text[first_dot..]
    );
    assert_eq!(
        deserialize_compact(&respelled, &decrypter).err(),
        Some(JoseError::DecryptionFailed)
    );
}

#[test]
fn other_associated_data_fails_to_decrypt() {
    let key = bytes(16);
    let text = serialize_flattened_json(
        b"bound to its data",
        Some(&header_for("A128GCM")),
        None,
        None,
        Some(b"the one"),
        &A128KW.encrypter_from_bytes(&key).unwrap(),
    )
    .unwrap();
    let decrypter = A128KW.decrypter_from_bytes(&key).unwrap();
    assert_eq!(deserialize_json(&text, &decrypter).unwrap().0, b"bound to its data".to_vec());
    assert!(text.contains("\"aad\":\"dGhlIG9uZQ\""));
    let other = text.replace("\"aad\":\"dGhlIG9uZQ\"", "\"aad\":\"dGhlIG90aGVy\"");
    assert_eq!(deserialize_json(&other, &decrypter).err(), Some(JoseError::DecryptionFailed));
    let none = text.replace(",\"aad\":\"dGhlIG9uZQ\"", "");
    assert_eq!(deserialize_json(&none, &decrypter).err(), Some(JoseError::DecryptionFailed));
}

#[test]
fn another_key_fails_to_decrypt() {
    let text = serialize_compact(
        b"wrapped",
        &header_for("A128CBC-HS256"),
        &A128KW.encrypter_from_bytes(&bytes(16)).unwrap(),
    )
    .unwrap();
    let other = A128KW.decrypter_from_bytes(&bytes(16)).unwrap();
    assert_eq!(deserialize_compact(&text, &other).err(), Some(JoseError::DecryptionFailed));
}

#[test]
fn reading_twice_gives_the_same() {
    let key = bytes(16);
    let mut header = header_for("A128GCM");
    header.set_claim("list", Some(JsonValue::Array(vec![JsonValue::Integer(-3)]))).unwrap();
    let encrypter = A128KW.encrypter_from_bytes(&key).unwrap();
    let decrypter = A128KW.decrypter_from_bytes(&key).unwrap();
    let compact = serialize_compact(b"again", &header, &encrypter).unwrap();
    assert_eq!(
        deserialize_compact(&compact, &decrypter),
        deserialize_compact(&compact, &decrypter)
    );
    let json =
        serialize_flattened_json(b"again", Some(&header), None, None, None, &encrypter).unwrap();
    assert_eq!(deserialize_json(&json, &decrypter), deserialize_json(&json, &decrypter));
    assert_eq!(
        deserialize_json(&json, &decrypter).unwrap().1.claim("list"),
        Some(&JsonValue::Array(vec![JsonValue::Integer(-3)]))
    );
}

#[test]
fn two_messages_of_one_payload_differ() {
    let key = bytes(16);
    let encrypter = A128KW.encrypter_from_bytes(&key).unwrap();
    let first = serialize_compact(b"same", &header_for("A128GCM"), &encrypter).unwrap();
    let second = serialize_compact(b"same", &header_for("A128GCM"), &encrypter).unwrap();
    assert_ne!(first, second);
}

#[test]
fn malformed_compact_texts() {
    let decrypter = Dir.decrypter_from_bytes(&bytes(16)).unwrap();
    for text in vec![
        "",
        "a.b.c.d",
        "a.b.c.d.e.f",
        "e30.!!.AA.AA.AA",
        "e30.AA.AA.AA.A",
        "bm8ganNvbg.AA.AA.AA.AA",
        "W10.AA.AA.AA.AA",
        "eyJlbmMiOjF9.AA.AA.AA.AA",
        "eyJhIjoxLCJhIjoyfQ.AA.AA.AA.AA=",
        "\u{e9}.AA.AA.AA.AA",
    ] {
        assert_eq!(
            deserialize_compact(text, &decrypter).err(),
            Some(JoseError::MalformedInput),
            "{}",
            text
        );
    }
}

#[test]
fn malformed_json_texts() {
    let decrypter = Dir.decrypter_from_bytes(&bytes(16)).unwrap();
    for text in vec![
        "",
        "[]",
        "{\"protected\":7,\"iv\":\"AA\",\"ciphertext\":\"AA\",\"tag\":\"AA\"}",
        "{\"protected\":\"e30\",\"ciphertext\":\"AA\",\"tag\":\"AA\"}",
        "{\"protected\":\"e30\",\"iv\":\"AA\",\"tag\":\"AA\"}",
        "{\"protected\":\"e30\",\"iv\":\"AA\",\"ciphertext\":\"AA\"}",
        "{\"protected\":\"e30\",\"iv\":\"AA\",\"ciphertext\":\"AA\",\"tag\":\"A\"}",
        "{\"protected\":\"e30\",\"iv\":\"AA\",\"ciphertext\":\"AA\",\"tag\":\"AA\",\"aad\":\"*\"}",
        "{\"unprotected\":[],\"iv\":\"AA\",\"ciphertext\":\"AA\",\"tag\":\"AA\"}",
        "{\"recipients\":{},\"iv\":\"AA\",\"ciphertext\":\"AA\",\"tag\":\"AA\"}",
        "{\"recipients\":[1],\"iv\":\"AA\",\"ciphertext\":\"AA\",\"tag\":\"AA\"}",
        "{\"header\":{\"alg\":1},\"iv\":\"AA\",\"ciphertext\":\"AA\",\"tag\":\"AA\"}",
    ] {
        assert_eq!(
            deserialize_json(text, &decrypter).err(),
            Some(JoseError::MalformedInput),
            "{}",
            text
        );
    }
}

#[test]
fn headers_in_conflict() {
    let key = bytes(16);
    let encrypter = Dir.encrypter_from_bytes(&key).unwrap();
    let decrypter = Dir.decrypter_from_bytes(&key).unwrap();
    assert_eq!(
        serialize_compact(b"x", &JweHeader::new(), &encrypter),
        Err(JoseError::HeaderConflict)
    );
    let mut named = JweHeader::new();
    named.set_algorithm("dir");
    assert_eq!(
        serialize_flattened_json(
            b"x",
            Some(&header_for("A128GCM")),
            Some(&named),
            None,
            None,
            &encrypter
        ),
        Err(JoseError::HeaderConflict)
    );
    assert_eq!(
        deserialize_json(
            "{\"protected\":\"eyJhIjoxfQ\",\"unprotected\":{\"a\":2},\"iv\":\"AA\",\"ciphertext\":\"AA\",\"tag\":\"AA\"}",
            &decrypter
        )
        .err(),
        Some(JoseError::HeaderConflict)
    );
    assert_eq!(
        deserialize_compact("eyJhbGciOiJkaXIifQ..AA.AA.AA", &decrypter).err(),
        Some(JoseError::HeaderConflict)
    );
    assert_eq!(
        deserialize_compact("eyJlbmMiOiJBMTI4R0NNIn0..AA.AA.AA", &decrypter).err(),
        Some(JoseError::HeaderConflict)
    );
}

#[test]
fn critical_names_must_be_accepted() {
    let key = bytes(16);
    let mut header = header_for("A128GCM");
    header.set_critical(&vec!["exp".to_string()]);
    header.set_claim("exp", Some(JsonValue::Integer(1))).unwrap();
    let text = serialize_compact(b"x", &header, &Dir.encrypter_from_bytes(&key).unwrap()).unwrap();
    let decrypter = Dir.decrypter_from_bytes(&key).unwrap();
    assert_eq!(deserialize_compact(&text, &decrypter).err(), Some(JoseError::HeaderConflict));
    let mut context = JweContext::new();
    assert!(!context.is_acceptable_critical("exp"));
    context.add_acceptable_critical("exp");
    assert!(context.is_acceptable_critical("exp"));
    assert_eq!(context.deserialize_compact(&text, &decrypter).unwrap().0, b"x".to_vec());
}

#[test]
fn algorithms_that_are_not_supported() {
    let key = bytes(16);
    let encrypter = Dir.encrypter_from_bytes(&key).unwrap();
    assert_eq!(
        serialize_compact(b"x", &header_for("A128CTR"), &encrypter),
        Err(JoseError::UnsupportedAlgorithm)
    );
    let mut packed = header_for("A128GCM");
    packed.set_compression("GZ");
    assert_eq!(serialize_compact(b"x", &packed, &encrypter), Err(JoseError::UnsupportedAlgorithm));
    assert_eq!(
        deserialize_compact(
            "eyJhbGciOiJkaXIiLCJlbmMiOiJYIn0..AA.AA.AA",
            &Dir.decrypter_from_bytes(&key).unwrap()
        )
        .err(),
        Some(JoseError::UnsupportedAlgorithm)
    );
}

#[test]
fn keys_that_do_not_fit() {
    assert_eq!(A128KW.encrypter_from_bytes(&bytes(24)).err(), Some(JoseError::KeyMismatch));
    assert_eq!(A256KW.decrypter_from_bytes(&bytes(16)).err(), Some(JoseError::KeyMismatch));
    let short = Dir.encrypter_from_bytes(&bytes(40)).unwrap();
    assert_eq!(
        serialize_compact(b"x", &header_for("A192CBC-HS384"), &short),
        Err(JoseError::KeyMismatch)
    );
    let key = bytes(32);
    let text =
        serialize_compact(b"x", &header_for("A256GCM"), &Dir.encrypter_from_bytes(&key).unwrap())
            .unwrap();
    assert_eq!(
        deserialize_compact(&text, &Dir.decrypter_from_bytes(&bytes(16)).unwrap()).err(),
        Some(JoseError::KeyMismatch)
    );
}

#[test]
fn no_algorithm_applies() {
    let key = bytes(16);
    let header = header_for("A128GCM");
    let encrypter = A128KW.encrypter_from_bytes(&key).unwrap();
    let text = serialize_compact(b"x", &header, &encrypter).unwrap();
    assert_eq!(
        deserialize_compact(&text, &Dir.decrypter_from_bytes(&key).unwrap()).err(),
        Some(JoseError::NoApplicableAlgorithm)
    );
    let mut named = A128KW.decrypter_from_bytes(&key).unwrap();
    named.set_key_id("mine");
    assert_eq!(deserialize_compact(&text, &named).err(), Some(JoseError::NoApplicableAlgorithm));
    assert_eq!(
        serialize_compact_with_selector(b"x", &header, |_: &JweHeader| None::<&JweEncrypter>),
        Err(JoseError::NoApplicableAlgorithm)
    );
    assert_eq!(
        deserialize_compact_with_selector(&text, |_: &JweHeader| Ok(None::<&JweDecrypter>)).err(),
        Some(JoseError::NoApplicableAlgorithm)
    );
}

#[test]
fn selectors_pick_by_the_header() {
    let key = bytes(16);
    let mut encrypter = A128KW.encrypter_from_bytes(&key).unwrap();
    encrypter.set_key_id("k1");
    let decrypter = A128KW.decrypter_from_bytes(&key).unwrap();
    let header = header_for("A128CBC-HS256");
    let compact = serialize_compact_with_selector(b"picked", &header, |h: &JweHeader| {
        if h.content_encryption() == Some("A128CBC-HS256") {
            Some(&encrypter)
        } else {
            None
        }
    })
    .unwrap();
    let pick = |h: &JweHeader| {
        if h.key_id() == Some("k1") && h.algorithm() == Some("A128KW") {
            Ok(Some(&decrypter))
        } else {
            Err(JoseError::KeyMismatch)
        }
    };
    let (payload, opened) = deserialize_compact_with_selector(&compact, pick).unwrap();
    assert_eq!(payload, b"picked".to_vec());
    assert_eq!(opened.key_id(), Some("k1"));
    let json = serialize_flattened_json_with_selector(
        b"picked",
        Some(&header),
        None,
        None,
        None,
        |_: &JweHeader| Some(&encrypter),
    )
    .unwrap();
    assert_eq!(deserialize_json_with_selector(&json, pick).unwrap().0, b"picked".to_vec());
    assert_eq!(
        deserialize_json_with_selector(&json, |_: &JweHeader| Err::<Option<&JweDecrypter>, _>(
            JoseError::UnsupportedAlgorithm
        ))
        .err(),
        Some(JoseError::UnsupportedAlgorithm)
    );
}
