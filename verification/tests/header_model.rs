use jwe::{JoseError, JsonValue, JweHeader};

#[test]
fn registered_claims_have_their_types() {
    let mut header = JweHeader::new();
    assert_eq!(
        header.set_claim("alg", Some(JsonValue::Integer(1))),
        Err(JoseError::MalformedInput)
    );
    assert_eq!(
        header.set_claim("crit", Some(JsonValue::String("exp".to_string()))),
        Err(JoseError::MalformedInput)
    );
    assert_eq!(
        header.set_claim("crit", Some(JsonValue::Array(vec![JsonValue::Bool(true)]))),
        Err(JoseError::MalformedInput)
    );
    assert_eq!(header.set_claim("jwk", Some(JsonValue::Null)), Err(JoseError::MalformedInput));
    assert_eq!(header.len(), 0);
    assert_eq!(header.set_claim("anything", Some(JsonValue::Null)), Ok(()));
    assert_eq!(header.set_claim("jwk", Some(JsonValue::Object(Vec::new()))), Ok(()));
    assert_eq!(header.len(), 2);
}

#[test]
fn claims_are_set_in_place_and_removed() {
    let mut header = JweHeader::new();
    header.set_algorithm("dir");
    header.set_content_encryption("A128GCM");
    header.set_key_id("one");
    header.set_algorithm("A128KW");
    assert_eq!(header.len(), 3);
    assert_eq!(header.to_bytes().unwrap(), b"{\"alg\":\"A128KW\",\"enc\":\"A128GCM\",\"kid\":\"one\"}".to_vec());
    header.set_claim("enc", None).unwrap();
    header.set_claim("absent", None).unwrap();
    assert_eq!(header.content_encryption(), None);
    assert_eq!(header.to_bytes().unwrap(), b"{\"alg\":\"A128KW\",\"kid\":\"one\"}".to_vec());
    header.set_content_type("text");
    header.set_compression("DEF");
    header.set_token_type("JWT");
    assert_eq!(header.content_type(), Some("text"));
    assert_eq!(header.compression(), Some("DEF"));
    assert_eq!(header.token_type(), Some("JWT"));
    assert_eq!(header.text_claim("missing"), None);
}

#[test]
fn critical_names_are_listed() {
    let mut header = JweHeader::new();
    assert_eq!(header.critical(), None);
    header.set_critical(&vec!["exp".to_string(), "b64".to_string()]);
    assert_eq!(header.critical(), Some(vec!["exp".to_string(), "b64".to_string()]));
    assert_eq!(
        header.claim("crit"),
        Some(&JsonValue::Array(vec![
            JsonValue::String("exp".to_string()),
            JsonValue::String("b64".to_string())
        ]))
    );
}

#[test]
fn merging_refuses_a_shared_name() {
    let mut first = JweHeader::new();
    first.set_algorithm("dir");
    let mut second = JweHeader::new();
    second.set_key_id("k");
    let merged = first.merge(&second).unwrap();
    assert_eq!(merged.len(), 2);
    assert_eq!(merged.algorithm(), Some("dir"));
    assert_eq!(merged.key_id(), Some("k"));
    second.set_algorithm("dir");
    assert_eq!(first.merge(&second).err(), Some(JoseError::HeaderConflict));
}

#[test]
fn equality_is_of_the_claims_in_any_order() {
    let mut first = JweHeader::new();
    first.set_algorithm("dir");
    first.set_key_id("k");
    let mut second = JweHeader::new();
    second.set_key_id("k");
    second.set_algorithm("dir");
    assert_eq!(first, second);
    assert_eq!(first.clone(), first);
    second.set_key_id("other");
    assert_ne!(first, second);
    second.set_claim("kid", None).unwrap();
    assert_ne!(first, second);
}

#[test]
fn a_header_is_read_from_its_text_and_written_back() {
    let text = b"{\"alg\":\"dir\",\"n\":-12,\"big\":18446744073709551615,\"r\":1.5,\"deep\":{\"a\":[null,true,\"\\u00e9\"]}}";
    let header = JweHeader::from_bytes(text).unwrap();
    assert_eq!(header.len(), 5);
    assert_eq!(header.claim("n"), Some(&JsonValue::Integer(-12)));
    assert_eq!(header.claim("big"), Some(&JsonValue::Integer(18446744073709551615)));
    assert_eq!(header.claim("r"), Some(&JsonValue::Real("1.5".to_string())));
    assert_eq!(
        header.claim("deep"),
        Some(&JsonValue::Object(vec![(
            "a".to_string(),
            JsonValue::Array(vec![
                JsonValue::Null,
                JsonValue::Bool(true),
                JsonValue::String("\u{e9}".to_string())
            ])
        )]))
    );
    let again = JweHeader::from_bytes(&header.to_bytes().unwrap()).unwrap();
    assert_eq!(again, header);
    assert_eq!(JweHeader::from_bytes(b"[1]").err(), Some(JoseError::MalformedInput));
    assert_eq!(JweHeader::from_bytes(b"{\"alg\":1}").err(), Some(JoseError::MalformedInput));
    assert_eq!(JweHeader::from_bytes(b"{\"alg\"").err(), Some(JoseError::MalformedInput));
}

#[test]
fn values_are_parsed_and_rendered() {
    let value = JsonValue::parse(b" [1, {\"k\": \"v\"}] ").unwrap();
    assert_eq!(
        value,
        JsonValue::Array(vec![
            JsonValue::Integer(1),
            JsonValue::Object(vec![("k".to_string(), JsonValue::String("v".to_string()))])
        ])
    );
    assert_eq!(value.render().unwrap(), b"[1,{\"k\":\"v\"}]".to_vec());
    assert_eq!(value.clone(), value);
    assert_eq!(JsonValue::parse(b"{"), None);
    assert_ne!(JsonValue::Integer(1), JsonValue::Real("1".to_string()));
}

#[test]
fn what_cannot_be_held_is_not_written() {
    assert_eq!(JsonValue::Integer(18446744073709551616).render(), None);
    assert_eq!(JsonValue::Integer(-9223372036854775809).render(), None);
    assert_eq!(
        JsonValue::Integer(-9223372036854775808).render(),
        Some(b"-9223372036854775808".to_vec())
    );
    let twice = JsonValue::Array(vec![JsonValue::Object(vec![
        ("a".to_string(), JsonValue::Null),
        ("a".to_string(), JsonValue::Bool(false)),
    ])]);
    assert!(!twice.storable());
    assert_eq!(twice.render(), None);
    let mut header = JweHeader::new();
    header.set_claim("n", Some(JsonValue::Integer(1 << 70))).unwrap();
    assert_eq!(header.to_bytes(), None);
}

#[test]
fn a_number_that_is_no_number_is_not_written() {
    assert_eq!(JsonValue::Real("abc".to_string()).render(), None);
    assert_eq!(
        JsonValue::Array(vec![JsonValue::Real("1e999".to_string())]).render(),
        None
    );
    assert_eq!(JsonValue::Real("2.50".to_string()).render(), Some(b"2.5".to_vec()));
    assert_eq!(JsonValue::Real("7".to_string()).render(), Some(b"7".to_vec()));
    assert_eq!(
        JsonValue::Object(vec![("r".to_string(), JsonValue::Real("-0.25e1".to_string()))]).render(),
        Some(b"{\"r\":-2.5}".to_vec())
    );
    let mut header = JweHeader::new();
    header.set_claim("r", Some(JsonValue::Real("abc".to_string()))).unwrap();
    assert_eq!(header.to_bytes(), None);
}
