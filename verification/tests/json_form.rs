use jwe::{
    deserialize_json, serialize_flattened_json, JoseError, JsonValue, JweHeader, A128GCMKW,
    A128KW, PBES2_HS256_A128KW,
};

fn key_bytes(len: usize) -> Vec<u8> {
    let mut bytes = vec![0u8; len];
    openssl::rand::rand_bytes(&mut bytes).unwrap();
    bytes
}

#[test]
fn flattened_json_round_trip_with_key_wrap() {
    let mut protected = JweHeader::new();
    protected.set_content_encryption("A128CBC-HS256");
    let mut unprotected = JweHeader::new();
    unprotected.set_token_type("JWT");
    let key = key_bytes(16);
    let encrypter = A128KW.encrypter_from_bytes(&key).unwrap();
    let text = serialize_flattened_json(
        b"a payload that is longer than one cipher block",
        Some(&protected),
        Some(&unprotected),
        None,
        Some(b"extra"),
        &encrypter,
    )
    .unwrap();
    let decrypter = A128KW.decrypter_from_bytes(&key).unwrap();
    let (payload, header) = deserialize_json(&text, &decrypter).unwrap();
    assert_eq!(payload, b"a payload that is longer than one cipher block".to_vec());
    assert_eq!(header.algorithm(), Some("A128KW"));
    assert_eq!(header.content_encryption(), Some("A128CBC-HS256"));
    assert_eq!(header.token_type(), Some("JWT"));
}

#[test]
fn flattened_json_round_trip_with_gcm_key_wrap_and_password() {
    for round in 0..2 {
        let mut protected = JweHeader::new();
        protected.set_content_encryption("A256GCM");
        protected.set_compression("DEF");
        let (encrypter, decrypter) = if round == 0 {
            let key = key_bytes(16);
            (
                A128GCMKW.encrypter_from_bytes(&key).unwrap(),
                A128GCMKW.decrypter_from_bytes(&key).unwrap(),
            )
        } else {
            (
                PBES2_HS256_A128KW.encrypter_from_bytes(b"correct horse").unwrap(),
                PBES2_HS256_A128KW.decrypter_from_bytes(b"correct horse").unwrap(),
            )
        };
        let text =
            serialize_flattened_json(b"", Some(&protected), None, None, None, &encrypter).unwrap();
        let (payload, header) = deserialize_json(&text, &decrypter).unwrap();
        assert_eq!(payload, Vec::<u8>::new());
        assert_eq!(header.compression(), Some("DEF"));
        if round == 1 {
            assert_eq!(header.claim("p2c"), Some(&JsonValue::Integer(1000)));
        }
    }
}

#[test]
fn headers_that_share_a_name_are_refused_when_building() {
    let mut protected = JweHeader::new();
    protected.set_content_encryption("A128GCM");
    protected.set_token_type("JWT");
    let mut unprotected = JweHeader::new();
    unprotected.set_token_type("JWT");
    let encrypter = A128KW.encrypter_from_bytes(&key_bytes(16)).unwrap();
    let r = serialize_flattened_json(
        b"x",
        Some(&protected),
        Some(&unprotected),
        None,
        None,
        &encrypter,
    );
    assert_eq!(r, Err(JoseError::HeaderConflict));
}
