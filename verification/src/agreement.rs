use crate::base64url::{base64url_bytes, base64url_chars, decode_text, encode_text};
use crate::compact::append;
use crate::crypto::{sha256, sha256_digest, MAX_INPUT_LEN};
use crate::header::{Claims, JweHeader};
use crate::json::{
    bytes_view, find_member, lemma_object_view, lookup, lookup_text, members_view, str_eq,
    value_view, Json, JsonValue,
};
use crate::pk::{
    ec_coordinates, ec_curve, ec_curve_bits, ec_point, ec_public_der, ec_public_encoded, ecdh_agree,
    ecdh_secret, public_of, EcCurve,
};
use vstd::prelude::*;
use vstd::slice::slice_subrange;
use vstd::utf8::encode_utf8;

verus! {

/// The four bytes of `n`, most significant first.
pub open spec fn be32(n: u32) -> Seq<u8> {
    seq![
        ((n >> 24) & 0xff) as u8,
        ((n >> 16) & 0xff) as u8,
        ((n >> 8) & 0xff) as u8,
        (n & 0xff) as u8,
    ]
}

/// What the key derivation is told besides the secret: the algorithm's name
/// and the two parties' information, each behind its length, and the length
/// of the key in bits.
pub open spec fn kdf_info(id: Seq<u8>, apu: Seq<u8>, apv: Seq<u8>, key_len: nat) -> Seq<u8> {
    be32(id.len() as u32) + id + be32(apu.len() as u32) + apu + be32(apv.len() as u32) + apv
        + be32((key_len * 8) as u32)
}

/// The output of the first `rounds` rounds of the key derivation: in round
/// `i` the SHA-256 digest of `i`, the secret and the information.
pub open spec fn kdf_stream(z: Seq<u8>, info: Seq<u8>, rounds: nat) -> Seq<u8>
    decreases rounds,
{
    if rounds == 0 {
        Seq::empty()
    } else {
        kdf_stream(z, info, (rounds - 1) as nat) + sha256_digest(be32(rounds as u32) + z + info)
    }
}

/// The key of `key_len` bytes that the Concat KDF derives with SHA-256.
pub open spec fn concat_kdf(z: Seq<u8>, id: Seq<u8>, apu: Seq<u8>, apv: Seq<u8>, key_len: nat) -> Seq<
    u8,
> {
    kdf_stream(z, kdf_info(id, apu, apv, key_len), (key_len + 31) / 32).subrange(0, key_len as int)
}

/// The four bytes of `n`, most significant first.
fn be32_bytes(n: u32) -> (r: Vec<u8>)
    ensures
        r@ == be32(n),
{
    let mut r: Vec<u8> = Vec::new();
    r.push(((n >> 24) & 0xff) as u8);
    r.push(((n >> 16) & 0xff) as u8);
    r.push(((n >> 8) & 0xff) as u8);
    r.push((n & 0xff) as u8);
    assert(r@ =~= be32(n));
    r
}

/// Derives a key of `key_len` bytes with the Concat KDF and SHA-256.
pub fn derive_key(z: &[u8], id: &[u8], apu: &[u8], apv: &[u8], key_len: usize) -> (r: Vec<u8>)
    requires
        id@.len() <= MAX_INPUT_LEN,
        apu@.len() <= MAX_INPUT_LEN,
        apv@.len() <= MAX_INPUT_LEN,
        1 <= key_len <= 1024,
    ensures
        r@ == concat_kdf(z@, id@, apu@, apv@, key_len as nat),
        r@.len() == key_len,
{
    let mut info: Vec<u8> = Vec::new();
    let id_len = be32_bytes(id.len() as u32);
    append(&mut info, id_len.as_slice());
    append(&mut info, id);
    let apu_len = be32_bytes(apu.len() as u32);
    append(&mut info, apu_len.as_slice());
    append(&mut info, apu);
    let apv_len = be32_bytes(apv.len() as u32);
    append(&mut info, apv_len.as_slice());
    append(&mut info, apv);
    let bits = be32_bytes((key_len * 8) as u32);
    append(&mut info, bits.as_slice());
    assert(info@ =~= kdf_info(id@, apu@, apv@, key_len as nat));
    let rounds: usize = (key_len + 31) / 32;
    let mut stream: Vec<u8> = Vec::new();
    let mut i: usize = 0;
    while i < rounds
        invariant
            i <= rounds <= 33,
            stream@ == kdf_stream(z@, info@, i as nat),
            stream@.len() == 32 * i,
        decreases rounds - i,
    {
        i += 1;
        let mut input = be32_bytes(i as u32);
        append(&mut input, z);
        append(&mut input, info.as_slice());
        let block = sha256(input.as_slice());
        append(&mut stream, block.as_slice());
    }
    vstd::slice::slice_to_vec(slice_subrange(stream.as_slice(), 0, key_len))
}

impl EcCurve {
    /// The curve's name in a key.
    pub open spec fn spec_name(self) -> Seq<char> {
        match self {
            EcCurve::P256 => "P-256"@,
            EcCurve::P384 => "P-384"@,
            EcCurve::P521 => "P-521"@,
        }
    }

    /// The curve that a name stands for.
    pub open spec fn named(name: Seq<char>) -> Option<EcCurve> {
        if name == "P-256"@ {
            Some(EcCurve::P256)
        } else if name == "P-384"@ {
            Some(EcCurve::P384)
        } else if name == "P-521"@ {
            Some(EcCurve::P521)
        } else {
            None
        }
    }

    /// The curve whose field has `bits` bits.
    pub open spec fn of_bits(bits: nat) -> Option<EcCurve> {
        if bits == 256 {
            Some(EcCurve::P256)
        } else if bits == 384 {
            Some(EcCurve::P384)
        } else if bits == 521 {
            Some(EcCurve::P521)
        } else {
            None
        }
    }

    /// The length of a coordinate in bytes.
    pub open spec fn spec_coordinate_len(self) -> nat {
        match self {
            EcCurve::P256 => 32,
            EcCurve::P384 => 48,
            EcCurve::P521 => 66,
        }
    }

    /// The curve's name in a key.
    pub fn name(self) -> (r: &'static str)
        ensures
            r@ == self.spec_name(),
    {
        match self {
            EcCurve::P256 => "P-256",
            EcCurve::P384 => "P-384",
            EcCurve::P521 => "P-521",
        }
    }

    /// The curve that `name` stands for, if it is one of them.
    pub fn from_name(name: &str) -> (r: Option<EcCurve>)
        ensures
            r == EcCurve::named(name@),
    {
        if str_eq(name, "P-256") {
            Some(EcCurve::P256)
        } else if str_eq(name, "P-384") {
            Some(EcCurve::P384)
        } else if str_eq(name, "P-521") {
            Some(EcCurve::P521)
        } else {
            None
        }
    }

    /// The length of a coordinate in bytes.
    pub fn coordinate_len(self) -> (r: usize)
        ensures
            r == self.spec_coordinate_len(),
    {
        match self {
            EcCurve::P256 => 32,
            EcCurve::P384 => 48,
            EcCurve::P521 => 66,
        }
    }
}

/// The number with zeros in front of it, up to `len` bytes.
pub open spec fn left_padded(bytes: Seq<u8>, len: nat) -> Seq<u8> {
    Seq::new((len - bytes.len()) as nat, |i: int| 0u8) + bytes
}

/// The number with zeros in front of it, up to `len` bytes.
fn pad_left(bytes: &[u8], len: usize) -> (r: Vec<u8>)
    requires
        bytes@.len() <= len,
    ensures
        r@ == left_padded(bytes@, len as nat),
{
    let mut r: Vec<u8> = Vec::new();
    let zeros = len - bytes.len();
    let mut i: usize = 0;
    while i < zeros
        invariant
            i <= zeros,
            r@ == Seq::new(i as nat, |k: int| 0u8),
        decreases zeros - i,
    {
        r.push(0u8);
        i += 1;
        assert(r@ =~= Seq::new(i as nat, |k: int| 0u8));
    }
    append(&mut r, bytes);
    r
}

/// The members of a public key on a curve, as a header carries it: the key
/// type, the curve, and the two coordinates in base64url at their full
/// length.
pub open spec fn epk_members(curve: EcCurve, x: Seq<u8>, y: Seq<u8>) -> Seq<(Seq<char>, Json)> {
    seq![
        ("kty"@, Json::String("EC"@)),
        ("crv"@, Json::String(curve.spec_name())),
        ("x"@, Json::String(base64url_chars(left_padded(x, curve.spec_coordinate_len())))),
        ("y"@, Json::String(base64url_chars(left_padded(y, curve.spec_coordinate_len())))),
    ]
}

/// The public key of an ephemeral private key, as a header carries it.
pub open spec fn epk_of(private_der: Seq<u8>) -> Option<Json> {
    match (ec_curve_bits(private_der), ec_point(private_der)) {
        (Some(bits), Some((x, y))) => match EcCurve::of_bits(bits) {
            Some(curve) => if x.len() <= curve.spec_coordinate_len() && y.len()
                <= curve.spec_coordinate_len() {
                Some(Json::Object(epk_members(curve, x, y)))
            } else {
                None
            },
            None => None,
        },
        _ => None,
    }
}

/// The curve and the coordinates, at their full length, of the public point
/// of a private key on one of the three curves.
pub open spec fn full_point(private_der: Seq<u8>) -> Option<(EcCurve, Seq<u8>, Seq<u8>)> {
    match (ec_curve_bits(private_der), ec_point(private_der)) {
        (Some(bits), Some((x, y))) => match EcCurve::of_bits(bits) {
            Some(curve) => if x.len() <= curve.spec_coordinate_len() && y.len()
                <= curve.spec_coordinate_len() {
                Some(
                    (
                        curve,
                        left_padded(x, curve.spec_coordinate_len()),
                        left_padded(y, curve.spec_coordinate_len()),
                    ),
                )
            } else {
                None
            },
            None => None,
        },
        _ => None,
    }
}

/// The agreement goes both ways: every private key to which `public_der`
/// belongs reads the public point of the fresh key as a key, and agrees with
/// it on the secret that the fresh key agrees on with `public_der`.
pub open spec fn agrees_back(fresh: Seq<u8>, public_der: Seq<u8>) -> bool {
    full_point(fresh) matches Some((curve, x, y)) ==> forall|private_der: Seq<u8>|
        #[trigger] public_of(private_der) == Some(public_der) ==> (ec_public_encoded(
            curve.bits(),
            x,
            y,
        ) matches Some(peer) && ecdh_secret(private_der, peer) == ecdh_secret(fresh, public_der))
}

/// Bytes that are read back from their base64url text.
pub open spec fn reads_back(bytes: Seq<u8>) -> bool {
    base64url_bytes(encode_utf8(base64url_chars(bytes))) == Some(bytes)
}

/// The coordinates of the public point of a fresh key are read back from the
/// text that the header carries.
pub open spec fn point_reads_back(private_der: Seq<u8>) -> bool {
    full_point(private_der) matches Some((_, x, y)) ==> reads_back(x) && reads_back(y)
}

/// The names of the members of a public key, and of the claims on the two
/// parties, are different names, and each curve is found by its name.
pub proof fn lemma_key_names()
    ensures
        "kty"@ != "crv"@,
        "kty"@ != "x"@,
        "kty"@ != "y"@,
        "crv"@ != "x"@,
        "crv"@ != "y"@,
        "x"@ != "y"@,
        forall|curve: EcCurve| EcCurve::named(curve.spec_name()) == Some(curve),
{
    reveal_strlit("kty");
    reveal_strlit("crv");
    reveal_strlit("x");
    reveal_strlit("y");
    reveal_strlit("P-256");
    reveal_strlit("P-384");
    reveal_strlit("P-521");
    assert("kty"@.len() == 3 && "crv"@.len() == 3 && "x"@.len() == 1 && "y"@.len() == 1);
    assert("kty"@[0] == 'k' && "crv"@[0] == 'c' && "x"@[0] == 'x' && "y"@[0] == 'y');
    assert forall|curve: EcCurve| EcCurve::named(curve.spec_name()) == Some(curve) by {
        assert("P-256"@[2] == '2' && "P-384"@[2] == '3' && "P-521"@[2] == '5');
    }
}

/// A header that carries the public point of a fresh key, with coordinates
/// that are read back, gives the key of that point.
pub proof fn lemma_epk_read(claims: Claims, curve: EcCurve, x: Seq<u8>, y: Seq<u8>)
    requires
        lookup(claims, "epk"@) == Some(
            Json::Object(
                seq![
                    ("kty"@, Json::String("EC"@)),
                    ("crv"@, Json::String(curve.spec_name())),
                    ("x"@, Json::String(base64url_chars(x))),
                    ("y"@, Json::String(base64url_chars(y))),
                ],
            ),
        ),
        reads_back(x),
        reads_back(y),
        x.len() <= MAX_INPUT_LEN,
        y.len() <= MAX_INPUT_LEN,
    ensures
        epk_peer(claims) == ec_public_encoded(curve.bits(), x, y),
{
    lemma_key_names();
    let members = seq![
        ("kty"@, Json::String("EC"@)),
        ("crv"@, Json::String(curve.spec_name())),
        ("x"@, Json::String(base64url_chars(x))),
        ("y"@, Json::String(base64url_chars(y))),
    ];
    crate::json::lemma_position(members, "kty"@, 0);
    crate::json::lemma_position(members, "crv"@, 1);
    crate::json::lemma_position(members, "x"@, 2);
    crate::json::lemma_position(members, "y"@, 3);
    assert(lookup_text(members, "kty"@) == Some("EC"@));
    assert(lookup_text(members, "crv"@) == Some(curve.spec_name()));
    assert(lookup_text(members, "x"@) == Some(base64url_chars(x)));
    assert(lookup_text(members, "y"@) == Some(base64url_chars(y)));
}

/// The public key of an ephemeral private key, as a header carries it.
pub fn ephemeral_public(private_der: &[u8]) -> (r: Option<JsonValue>)
    ensures
        value_view(r) == epk_of(private_der@),
        r is Some ==> point_reads_back(private_der@),
{
    let curve = ec_curve(private_der);
    let point = ec_coordinates(private_der);
    match (curve, point) {
        (Some(curve), Some((x, y))) => {
            let len = curve.coordinate_len();
            if x.len() > len || y.len() > len {
                return None;
            }
            let x_full = pad_left(x.as_slice(), len);
            let y_full = pad_left(y.as_slice(), len);
            let mut members: Vec<(String, JsonValue)> = Vec::new();
            members.push(("kty".to_owned(), JsonValue::String("EC".to_owned())));
            members.push(("crv".to_owned(), JsonValue::String(curve.name().to_owned())));
            members.push(("x".to_owned(), JsonValue::String(encode_text(x_full.as_slice()))));
            members.push(("y".to_owned(), JsonValue::String(encode_text(y_full.as_slice()))));
            proof {
                lemma_object_view(members);
                assert(members_view(members@) =~= epk_members(curve, x@, y@));
            }
            Some(JsonValue::Object(members))
        },
        _ => None,
    }
}

/// The peer's public key in DER that the header's claim `epk` holds: a key
/// of type `EC` on one of the curves, with both coordinates.
pub open spec fn epk_peer(claims: Claims) -> Option<Seq<u8>> {
    match lookup(claims, "epk"@) {
        Some(Json::Object(members)) => match (
            lookup_text(members, "kty"@),
            lookup_text(members, "crv"@),
            lookup_text(members, "x"@),
            lookup_text(members, "y"@),
        ) {
            (Some(kty), Some(crv), Some(x), Some(y)) => match (
                EcCurve::named(crv),
                base64url_bytes(encode_utf8(x)),
                base64url_bytes(encode_utf8(y)),
            ) {
                (Some(curve), Some(x), Some(y)) => if kty == "EC"@ && x.len() <= MAX_INPUT_LEN
                    && y.len() <= MAX_INPUT_LEN {
                    ec_public_encoded(curve.bits(), x, y)
                } else {
                    None
                },
                _ => None,
            },
            _ => None,
        },
        _ => None,
    }
}

/// The text of a member of an object, where it is a string.
fn member_str<'a>(members: &'a Vec<(String, JsonValue)>, name: &str) -> (r: Option<&'a str>)
    ensures
        match r {
            Some(t) => lookup_text(members_view(members@), name@) == Some(t@),
            None => lookup_text(members_view(members@), name@) is None,
        },
{
    match find_member(members, name) {
        Some(k) => match &members[k].1 {
            JsonValue::String(t) => Some(t.as_str()),
            _ => None,
        },
        None => None,
    }
}

/// The peer's public key in DER that the header's claim `epk` holds.
pub fn peer_key(header: &JweHeader) -> (r: Option<Vec<u8>>)
    ensures
        bytes_view(r) == epk_peer(header@),
{
    match header.claim("epk") {
        Some(JsonValue::Object(members)) => {
            proof {
                lemma_object_view(*members);
            }
            let kty = member_str(members, "kty");
            let crv = member_str(members, "crv");
            let x = member_str(members, "x");
            let y = member_str(members, "y");
            match (kty, crv, x, y) {
                (Some(kty), Some(crv), Some(x), Some(y)) => {
                    let curve = EcCurve::from_name(crv);
                    let x = decode_text(x);
                    let y = decode_text(y);
                    match (curve, x, y) {
                        (Some(curve), Some(x), Some(y)) => {
                            if str_eq(kty, "EC") && x.len() <= MAX_INPUT_LEN && y.len()
                                <= MAX_INPUT_LEN {
                                ec_public_der(curve, x.as_slice(), y.as_slice())
                            } else {
                                None
                            }
                        },
                        _ => None,
                    }
                },
                _ => None,
            }
        },
        _ => None,
    }
}

/// The information about a party that a claim holds in base64url; nothing
/// where the claim is absent.
pub open spec fn party_info(claims: Claims, name: Seq<char>) -> Option<Seq<u8>> {
    match lookup(claims, name) {
        None => Some(Seq::empty()),
        Some(Json::String(t)) => base64url_bytes(encode_utf8(t)),
        Some(_) => None,
    }
}

/// The information about a party that a claim holds in base64url.
fn party(header: &JweHeader, name: &str) -> (r: Option<Vec<u8>>)
    ensures
        bytes_view(r) == party_info(header@, name@),
{
    match header.claim(name) {
        None => {
            let none: Vec<u8> = Vec::new();
            assert(none@ =~= Seq::<u8>::empty());
            Some(none)
        },
        Some(JsonValue::String(t)) => decode_text(t.as_str()),
        Some(_) => None,
    }
}

/// The key of `len` bytes that two keys agree on: the Concat KDF of their
/// shared secret, told the name `id` and what the header says of the two
/// parties.
pub open spec fn agreed_key(
    private_der: Seq<u8>,
    public_der: Seq<u8>,
    id: Seq<u8>,
    claims: Claims,
    len: nat,
) -> Option<Seq<u8>> {
    match (party_info(claims, "apu"@), party_info(claims, "apv"@), ecdh_secret(private_der, public_der)) {
        (Some(apu), Some(apv), Some(z)) => if id.len() <= MAX_INPUT_LEN && apu.len()
            <= MAX_INPUT_LEN && apv.len() <= MAX_INPUT_LEN && 1 <= len <= 1024 {
            Some(concat_kdf(z, id, apu, apv, len))
        } else {
            None
        },
        _ => None,
    }
}

/// Agrees on a key of `len` bytes.
pub fn agree(private_der: &[u8], public_der: &[u8], id: &[u8], header: &JweHeader, len: usize) -> (r:
    Option<Vec<u8>>)
    ensures
        bytes_view(r) == agreed_key(private_der@, public_der@, id@, header@, len as nat),
        r matches Some(k) ==> k@.len() == len,
{
    let apu = party(header, "apu");
    let apv = party(header, "apv");
    let z = ecdh_agree(private_der, public_der);
    match (apu, apv, z) {
        (Some(apu), Some(apv), Some(z)) => {
            if id.len() <= MAX_INPUT_LEN && apu.len() <= MAX_INPUT_LEN && apv.len()
                <= MAX_INPUT_LEN && 1 <= len && len <= 1024 {
                Some(derive_key(z.as_slice(), id, apu.as_slice(), apv.as_slice(), len))
            } else {
                None
            }
        },
        _ => None,
    }
}

} // verus!
