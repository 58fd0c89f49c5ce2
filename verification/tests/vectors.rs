use jwe::agreement::derive_key;
use jwe::{
    deserialize_compact, deserialize_json, serialize_compact, Dir, JoseError, JsonValue,
    JweContentEncryption, JweContext, JweEncrypter, JweHeader, A128GCMKW, A128KW,
    PBES2_HS256_A128KW,
};

fn hex(text: &str) -> Vec<u8> {
    let digits: Vec<u8> = text
        .bytes()
        .filter(|b| !b.is_ascii_whitespace())
        .map(|b| match b {
            b'0'..=b'9' => b - b'0',
            b'a'..=b'f' => b - b'a' + 10,
            _ => panic!("not a hex digit"),
        })
        .collect();
    digits.chunks(2).map(|pair| pair[0] * 16 + pair[1]).collect()
}

fn counting(from: u8, len: usize) -> Vec<u8> {
    (0..len).map(|i| from + i as u8).collect()
}

#[test]
fn composite_encryption_gives_the_published_ciphertext_and_tag() {
    let key = counting(0, 32);
    let plaintext = b"A cipher system must not be required to be secret, and it must be able to fall into the hands of the enemy without inconvenience";
    let iv = hex("1af38c2dc2b96ffdd866940923 41bc04");
    let aad = b"The second principle of Auguste Kerckhoffs";
    let (ciphertext, tag) = JweContentEncryption::A128CbcHs256
        .encrypt(&key, &iv, aad, plaintext)
        .unwrap();
    assert_eq!(
        ciphertext,
        hex(
            "c80edfa32ddf39d5ef00c0b468834279a2e46a1b8049f792f76bfe54b903a9c9
             a94ac9b47ad2655c5f10f9aef71427e2fc6f9b3f399a221489f16362c7032336
             09d45ac69864e3321cf82935ac4096c86e133314c54019e8ca7980dfa4b9cf1b
             384c486f3a54c51078158ee5d79de59fbd34d848b3d69550a67646344427ade5
             4b8851ffb598f7f80074b9473c82e2db"
        )
    );
    assert_eq!(tag, hex("652c3fa36b0a7c5b3219fab3a30bc1c4"));
    let opened = JweContentEncryption::A128CbcHs256
        .decrypt(&key, &iv, aad, &ciphertext, &tag)
        .unwrap();
    assert_eq!(opened, plaintext.to_vec());
}

#[test]
fn gcm_encryption_gives_the_expected_ciphertext_and_tag() {
    let (ciphertext, tag) = JweContentEncryption::A128Gcm
        .encrypt(&counting(0, 16), &counting(0, 12), b"header", b"test payload!")
        .unwrap();
    assert_eq!(ciphertext, hex("e709d4ba466b962d27bd00ee17"));
    assert_eq!(tag, hex("0e35a4d59a9f8269acab9a59ce99eb82"));
}

#[test]
fn lengths_of_keys_ivs_and_tags() {
    let all = vec![
        ("A128CBC-HS256", 32, 16, 16),
        ("A192CBC-HS384", 48, 16, 24),
        ("A256CBC-HS512", 64, 16, 32),
        ("A128GCM", 16, 12, 16),
        ("A192GCM", 24, 12, 16),
        ("A256GCM", 32, 12, 16),
    ];
    for (name, key_len, iv_len, tag_len) in all {
        let enc = JweContentEncryption::from_name(name).unwrap();
        assert_eq!(enc.name(), name);
        assert_eq!(enc.key_len(), key_len);
        assert_eq!(enc.iv_len(), iv_len);
        assert_eq!(enc.tag_len(), tag_len);
        let (ciphertext, tag) = enc
            .encrypt(&counting(0, key_len), &counting(0, iv_len), b"", b"")
            .unwrap();
        assert_eq!(tag.len(), tag_len);
        assert_eq!(ciphertext.len(), if iv_len == 16 { 16 } else { 0 });
    }
    assert_eq!(JweContentEncryption::from_name("A128CBC"), None);
}

#[test]
fn a_key_of_the_wrong_length_encrypts_nothing() {
    let enc = JweContentEncryption::A192CbcHs384;
    assert_eq!(enc.encrypt(&counting(0, 40), &counting(0, 16), b"", b"x"), None);
    assert_eq!(enc.encrypt(&counting(0, 48), &counting(0, 12), b"", b"x"), None);
}

#[test]
fn concat_kdf_gives_the_published_key() {
    let z = vec![
        158, 86, 217, 29, 129, 113, 53, 211, 114, 131, 66, 131, 191, 132, 38, 156, 251, 49, 110,
        163, 218, 128, 106, 72, 246, 218, 167, 121, 140, 254, 144, 196,
    ];
    assert_eq!(
        derive_key(&z, b"A128GCM", b"Alice", b"Bob", 16),
        vec![86, 170, 141, 234, 248, 35, 109, 32, 92, 34, 40, 205, 113, 167, 16, 26]
    );
    assert_eq!(
        derive_key(&z, b"A192CBC-HS384", b"", b"", 48),
        hex(
            "f7166ec8eafc577e0404b84bd248f333feb0b9ad0dba869bbd0af407c3d85355
             72fac2b38b1d05ac372d4fca4eb8b41a"
        )
    );
}

#[test]
fn key_wrap_gives_the_published_wrapped_key() {
    let encrypter = A128KW.encrypter_from_bytes(&hex("000102030405060708090a0b0c0d0e0f")).unwrap();
    let mut header = JweHeader::new();
    let wrapped = encrypter
        .wrap_key(&hex("00112233445566778899aabbccddeeff"), b"", &mut header)
        .unwrap();
    assert_eq!(wrapped, Some(hex("1fa68b0a8112b447aef34bd8fb5a7b829d3e862371d2cfe5")));
    assert_eq!(header.len(), 0);
    let decrypter = A128KW.decrypter_from_bytes(&hex("000102030405060708090a0b0c0d0e0f")).unwrap();
    assert_eq!(
        decrypter.unwrap_key(wrapped.as_deref(), &header),
        Ok(hex("00112233445566778899aabbccddeeff"))
    );
}

#[test]
fn gcm_key_wrap_writes_iv_and_tag_into_the_header() {
    let encrypter = A128GCMKW.encrypter_from_bytes(&counting(0, 16)).unwrap();
    let mut header = JweHeader::new();
    let wrapped = encrypter.wrap_key(&counting(16, 16), &counting(100, 12), &mut header).unwrap();
    assert_eq!(wrapped, Some(hex("0a735cb6cf17aeed83274d0b9ad735f3")));
    assert_eq!(header.claim("iv"), Some(&JsonValue::String("ZGVmZ2hpamtsbW5v".to_string())));
    assert_eq!(
        header.claim("tag"),
        Some(&JsonValue::String("pW8hLEqBn4yHwWt_YOxusQ".to_string()))
    );
    assert_eq!(
        encrypter.wrap_key(&counting(16, 16), &counting(100, 11), &mut header),
        Err(JoseError::KeyMismatch)
    );
}

#[test]
fn password_key_wrap_writes_salt_and_rounds_into_the_header() {
    let encrypter = PBES2_HS256_A128KW.encrypter_from_bytes(b"correct horse").unwrap();
    let mut header = JweHeader::new();
    let wrapped = encrypter.wrap_key(&counting(32, 32), &counting(0, 8), &mut header).unwrap();
    assert_eq!(
        wrapped,
        Some(hex(
            "6622ab7eeb0e63ee7a252454e7cc247dfeaab268aa71c562873ff678e7c21379314312f155980c75"
        ))
    );
    assert_eq!(header.claim("p2s"), Some(&JsonValue::String("AAECAwQFBgc".to_string())));
    assert_eq!(header.claim("p2c"), Some(&JsonValue::Integer(1000)));
    let decrypter = PBES2_HS256_A128KW.decrypter_from_bytes(b"correct horse").unwrap();
    assert_eq!(decrypter.unwrap_key(wrapped.as_deref(), &header), Ok(counting(32, 32)));
    let mut weak = PBES2_HS256_A128KW.encrypter_from_bytes(b"correct horse").unwrap();
    weak.set_iterations(999);
    assert_eq!(
        weak.wrap_key(&counting(32, 32), &counting(0, 8), &mut header),
        Err(JoseError::KeyMismatch)
    );
    assert_eq!(
        encrypter.wrap_key(&counting(32, 32), &counting(0, 7), &mut header),
        Err(JoseError::KeyMismatch)
    );
}

#[test]
fn compact_text_for_given_random_bytes() {
    let mut header = JweHeader::new();
    header.set_content_encryption("A128GCM");
    let encrypter = Dir.encrypter_from_bytes(&counting(0, 16)).unwrap();
    let text = JweContext::new()
        .serialize_compact_with(b"test payload!", &header, &encrypter, b"", b"", &counting(0, 12))
        .unwrap();
    assert_eq!(
        text,
        "eyJlbmMiOiJBMTI4R0NNIiwiYWxnIjoiZGlyIn0..AAECAwQFBgcICQoL.5wnUukZrli0nvQDuFw.sWchiUa0cAUBLUxcVEZKDQ"
    );
}

#[test]
fn flattened_text_for_given_random_bytes() {
    let mut protected = JweHeader::new();
    protected.set_content_encryption("A128GCM");
    let mut unprotected = JweHeader::new();
    unprotected.set_token_type("JWT");
    let encrypter = A128KW.encrypter_from_bytes(&counting(0, 16)).unwrap();
    let text = JweContext::new()
        .serialize_flattened_json_with(
            b"test payload!",
            Some(&protected),
            Some(&unprotected),
            None,
            Some(b"extra"),
            &encrypter,
            &counting(16, 16),
            b"",
            &counting(0, 12),
        )
        .unwrap();
    assert_eq!(
        text,
        "{\"protected\":\"eyJlbmMiOiJBMTI4R0NNIiwiYWxnIjoiQTEyOEtXIn0\",\"unprotected\":{\"typ\":\"JWT\"},\"encrypted_key\":\"-4y9lAzYCFcoXtVE1VEUGtfVb9xfmgFw\",\"aad\":\"ZXh0cmE\",\"iv\":\"AAECAwQFBgcICQoL\",\"ciphertext\":\"hRBno2BtlYveG3Ez7g\",\"tag\":\"PlwAzW8v7CS-hBvTsnAFLw\"}"
    );
}

#[test]
fn general_text_for_given_random_bytes() {
    let mut protected = JweHeader::new();
    protected.set_content_encryption("A128GCM");
    let mut first = A128KW.encrypter_from_bytes(&counting(0, 16)).unwrap();
    first.set_key_id("a");
    let second = A128KW.encrypter_from_bytes(&counting(32, 16)).unwrap();
    let recipients: Vec<(Option<&JweHeader>, &JweEncrypter)> =
        vec![(None, &first), (None, &second)];
    let text = JweContext::new()
        .serialize_general_json_with(
            b"test payload!",
            Some(&protected),
            None,
            &recipients,
            None,
            &counting(16, 16),
            &vec![Vec::new(), Vec::new()],
            &counting(0, 12),
        )
        .unwrap();
    assert_eq!(
        text,
        "{\"protected\":\"eyJlbmMiOiJBMTI4R0NNIn0\",\"recipients\":[{\"header\":{\"kid\":\"a\",\"alg\":\"A128KW\"},\"encrypted_key\":\"-4y9lAzYCFcoXtVE1VEUGtfVb9xfmgFw\"},{\"header\":{\"alg\":\"A128KW\"},\"encrypted_key\":\"L-jhO87WNKSeZYrF7GlC1YU5ZGqhd9CS\"}],\"iv\":\"AAECAwQFBgcICQoL\",\"ciphertext\":\"hRBno2BtlYveG3Ez7g\",\"tag\":\"LoS6Gu0Bvs1SghfYjUAzJQ\"}"
    );
    let mut decrypter = A128KW.decrypter_from_bytes(&counting(32, 16)).unwrap();
    assert_eq!(deserialize_json(&text, &decrypter).unwrap().0, b"test payload!".to_vec());
    decrypter.set_key_id("a");
    assert_eq!(deserialize_json(&text, &decrypter).err(), Some(JoseError::DecryptionFailed));
}

#[test]
fn a_published_message_opens() {
    let text = "eyJhbGciOiJBMTI4S1ciLCJlbmMiOiJBMTI4Q0JDLUhTMjU2In0.6KB707dM9YTIgHtLvtgWQ8mKwboJW3of9locizkDTHzBC2IlrT1oOQ.AxY8DCtDaGlsbGljb3RoZQ.KDlTtXchhZTGufMYmOYGS4HffxPSUrfmqCHXaI9wOGY.U0m_YmjN04DJvceFICbCVQ";
    let key = vec![25, 172, 32, 130, 225, 114, 26, 181, 138, 106, 254, 192, 95, 133, 74, 82];
    let decrypter = A128KW.decrypter_from_bytes(&key).unwrap();
    let (payload, header) = deserialize_compact(text, &decrypter).unwrap();
    assert_eq!(payload, b"Live long and prosper.".to_vec());
    assert_eq!(header.algorithm(), Some("A128KW"));
    assert_eq!(header.content_encryption(), Some("A128CBC-HS256"));
    assert_eq!(header.len(), 2);
}

#[test]
fn direct_encryption_with_gcm_in_compact_form() {
    let mut header = JweHeader::new();
    header.set_content_encryption("A256GCM");
    let key = counting(7, 32);
    let text =
        serialize_compact(b"test payload!", &header, &Dir.encrypter_from_bytes(&key).unwrap())
            .unwrap();
    let segments: Vec<&str> = text.split('.').collect();
    assert_eq!(segments.len(), 5);
    assert_eq!(segments[0], "eyJlbmMiOiJBMjU2R0NNIiwiYWxnIjoiZGlyIn0");
    assert_eq!(segments[1], "");
    assert_eq!(segments[2].len(), 16);
    assert_eq!(segments[4].len(), 22);
    let (payload, opened) =
        deserialize_compact(&text, &Dir.decrypter_from_bytes(&key).unwrap()).unwrap();
    assert_eq!(payload, b"test payload!".to_vec());
    assert_eq!(opened.algorithm(), Some("dir"));
    assert_eq!(opened.content_encryption(), Some("A256GCM"));
}

#[test]
fn compression_shortens_what_repeats_and_is_undone() {
    let payload = vec![b'a'; 4000];
    let key = counting(0, 16);
    let encrypter = Dir.encrypter_from_bytes(&key).unwrap();
    let decrypter = Dir.decrypter_from_bytes(&key).unwrap();
    let mut plain = JweHeader::new();
    plain.set_content_encryption("A128GCM");
    let mut packed = JweHeader::new();
    packed.set_content_encryption("A128GCM");
    packed.set_compression("DEF");
    let long = serialize_compact(&payload, &plain, &encrypter).unwrap();
    let short = serialize_compact(&payload, &packed, &encrypter).unwrap();
    assert!(long.len() > 5000);
    assert!(short.len() < 300);
    assert_eq!(deserialize_compact(&short, &decrypter).unwrap().0, payload);
    assert_eq!(deserialize_compact(&long, &decrypter).unwrap().0, payload);
}

#[test]
fn a_password_encrypter_draws_the_salt_it_is_set_to() {
    let mut header = JweHeader::new();
    header.set_content_encryption("A128GCM");
    let mut encrypter = PBES2_HS256_A128KW.encrypter_from_bytes(b"correct horse").unwrap();
    encrypter.set_salt_len(16);
    encrypter.set_iterations(2000);
    encrypter.set_key_id("pw");
    let text = serialize_compact(b"salted", &header, &encrypter).unwrap();
    let mut decrypter = PBES2_HS256_A128KW.decrypter_from_bytes(b"correct horse").unwrap();
    decrypter.set_key_id("pw");
    let (payload, opened) = deserialize_compact(&text, &decrypter).unwrap();
    assert_eq!(payload, b"salted".to_vec());
    assert_eq!(opened.claim("p2c"), Some(&JsonValue::Integer(2000)));
    assert_eq!(opened.text_claim("p2s").map(|s| s.len()), Some(22));
    assert_eq!(opened.key_id(), Some("pw"));
    decrypter.remove_key_id();
    assert_eq!(decrypter.key_id(), None);
    encrypter.remove_key_id();
    assert_eq!(encrypter.key_id(), None);
    encrypter.set_salt_len(7);
    assert_eq!(serialize_compact(b"salted", &header, &encrypter), Err(JoseError::KeyMismatch));
    encrypter.set_salt_len(2000);
    assert_eq!(serialize_compact(b"salted", &header, &encrypter), Err(JoseError::KeyMismatch));
}
