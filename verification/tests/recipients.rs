use jwe::{
    deserialize_json, Dir, JoseError, JsonValue, JweContext, JweDecrypter, JweEncrypter,
    JweHeader, A128KW, A256GCMKW, PBES2_HS512_A256KW,
};

fn fresh(len: usize) -> Vec<u8> {
    let mut bytes = vec![0u8; len];
    openssl::rand::rand_bytes(&mut bytes).unwrap();
    bytes
}

fn three() -> (Vec<JweEncrypter>, Vec<JweDecrypter>) {
    let first = fresh(16);
    let second = fresh(32);
    let mut encrypters = vec![
        A128KW.encrypter_from_bytes(&first).unwrap(),
        A256GCMKW.encrypter_from_bytes(&second).unwrap(),
        PBES2_HS512_A256KW.encrypter_from_bytes(b"a long password").unwrap(),
    ];
    encrypters[0].set_key_id("first");
    let decrypters = vec![
        A128KW.decrypter_from_bytes(&first).unwrap(),
        A256GCMKW.decrypter_from_bytes(&second).unwrap(),
        PBES2_HS512_A256KW.decrypter_from_bytes(b"a long password").unwrap(),
    ];
    (encrypters, decrypters)
}

#[test]
fn each_recipient_recovers_the_payload() {
    let (encrypters, decrypters) = three();
    let mut protected = JweHeader::new();
    protected.set_content_encryption("A128CBC-HS256");
    let mut own = JweHeader::new();
    own.set_claim("note", Some(JsonValue::String("for the second".to_string()))).unwrap();
    let recipients = vec![
        (None, &encrypters[0]),
        (Some(&own), &encrypters[1]),
        (None, &encrypters[2]),
    ];
    let context = JweContext::new();
    let text = context
        .serialize_general_json(b"for all of you", Some(&protected), None, &recipients, Some(b"aad"))
        .unwrap();
    for (i, decrypter) in decrypters.iter().enumerate() {
        let (payload, header) = deserialize_json(&text, decrypter).unwrap();
        assert_eq!(payload, b"for all of you".to_vec());
        assert_eq!(header.algorithm(), Some(encrypters[i].algorithm().name()));
        assert_eq!(header.content_encryption(), Some("A128CBC-HS256"));
        if i == 0 {
            assert_eq!(header.key_id(), Some("first"));
        }
        if i == 1 {
            assert_eq!(
                header.claim("note"),
                Some(&JsonValue::String("for the second".to_string()))
            );
        }
    }
}

#[test]
fn a_stranger_is_refused() {
    let (encrypters, _) = three();
    let mut protected = JweHeader::new();
    protected.set_content_encryption("A256GCM");
    let recipients = vec![(None, &encrypters[0]), (None, &encrypters[1])];
    let context = JweContext::new();
    let text = context
        .serialize_general_json(b"not for you", Some(&protected), None, &recipients, None)
        .unwrap();
    let other_algorithm = Dir.decrypter_from_bytes(&fresh(32)).unwrap();
    assert_eq!(
        deserialize_json(&text, &other_algorithm).err(),
        Some(JoseError::NoApplicableAlgorithm)
    );
    let mut other_key = A128KW.decrypter_from_bytes(&fresh(16)).unwrap();
    other_key.set_key_id("first");
    assert_eq!(deserialize_json(&text, &other_key).err(), Some(JoseError::DecryptionFailed));
    let mut other_id = A128KW.decrypter_from_bytes(&fresh(16)).unwrap();
    other_id.set_key_id("nobody");
    assert_eq!(
        deserialize_json(&text, &other_id).err(),
        Some(JoseError::NoApplicableAlgorithm)
    );
}

#[test]
fn a_derived_key_serves_one_recipient_only() {
    let (encrypters, _) = three();
    let key = fresh(16);
    let direct = Dir.encrypter_from_bytes(&key).unwrap();
    let mut protected = JweHeader::new();
    protected.set_content_encryption("A128GCM");
    let context = JweContext::new();
    let both = vec![(None, &direct), (None, &encrypters[0])];
    assert_eq!(
        context.serialize_general_json(b"x", Some(&protected), None, &both, None),
        Err(JoseError::NoApplicableAlgorithm)
    );
    let nobody: Vec<(Option<&JweHeader>, &JweEncrypter)> = Vec::new();
    assert_eq!(
        context.serialize_general_json(b"x", Some(&protected), None, &nobody, None),
        Err(JoseError::NoApplicableAlgorithm)
    );
    let alone = vec![(None, &direct)];
    let text =
        context.serialize_general_json(b"x", Some(&protected), None, &alone, None).unwrap();
    let decrypter = Dir.decrypter_from_bytes(&key).unwrap();
    assert_eq!(deserialize_json(&text, &decrypter).unwrap().0, b"x".to_vec());
}
