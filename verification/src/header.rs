use crate::error::JoseError;
use crate::json::{
    find_member, json_parsed, json_plain, json_text, lemma_object_view, lemma_position,
    lemma_position_found, lookup, lookup_text, members_view, names_distinct, plain_depth, position,
    str_eq, Json, JsonValue,
};
use vstd::prelude::*;

verus! {

/// The claims of a header as mathematics sees them: names and values, in
/// order.
pub type Claims = Seq<(Seq<char>, Json)>;

/// A registered claim whose value is a string.
pub open spec fn is_text_claim(name: Seq<char>) -> bool {
    name == "alg"@ || name == "enc"@ || name == "zip"@ || name == "jku"@ || name == "x5u"@ || name
        == "x5t"@ || name == "x5t#S256"@ || name == "kid"@ || name == "typ"@ || name == "cty"@
}

/// A registered claim whose value is a list of strings.
pub open spec fn is_text_list_claim(name: Seq<char>) -> bool {
    name == "crit"@ || name == "x5c"@
}

/// The value is a list of strings.
pub open spec fn is_text_list(value: Json) -> bool {
    match value {
        Json::Array(items) => forall|i: int| 0 <= i < items.len() ==> #[trigger] items[i] is String,
        _ => false,
    }
}

/// The list of strings as a JSON value.
pub open spec fn text_list(names: Seq<String>) -> Json {
    Json::Array(Seq::new(names.len(), |k: int| Json::String(names[k]@)))
}

/// The value has the type that the claim's name asks for. A name that is not
/// registered asks for nothing.
pub open spec fn claim_fits(name: Seq<char>, value: Json) -> bool {
    if is_text_claim(name) {
        value is String
    } else if is_text_list_claim(name) {
        is_text_list(value)
    } else if name == "jwk"@ {
        value is Object
    } else {
        true
    }
}

/// Every claim has the type its name asks for, and no name occurs twice.
pub open spec fn claims_ok(claims: Claims) -> bool {
    &&& names_distinct(claims)
    &&& forall|i: int|
        0 <= i < claims.len() ==> claim_fits((#[trigger] claims[i]).0, claims[i].1)
}

/// The claims with `name` set to `value`: in place where the name is there,
/// at the end where it is not.
pub open spec fn with_claim(claims: Claims, name: Seq<char>, value: Json) -> Claims {
    let k = position(claims, name);
    if 0 <= k < claims.len() {
        claims.update(k, (name, value))
    } else {
        claims.push((name, value))
    }
}

/// The claims without the one named `name`.
pub open spec fn without_claim(claims: Claims, name: Seq<char>) -> Claims {
    let k = position(claims, name);
    if 0 <= k < claims.len() {
        claims.remove(k)
    } else {
        claims
    }
}

/// Some name is a claim of both.
pub open spec fn share_name(a: Claims, b: Claims) -> bool {
    exists|i: int, j: int|
        0 <= i < a.len() && 0 <= j < b.len() && (#[trigger] a[i]).0 == (#[trigger] b[j]).0
}

/// The claims that a JSON text holds: those of an object whose claims are in
/// order.
pub open spec fn claims_parsed(text: Seq<u8>) -> Option<Claims> {
    match json_parsed(text) {
        Some(Json::Object(members)) => if claims_ok(members) {
            Some(members)
        } else {
            None
        },
        _ => None,
    }
}

/// The JSON text of the claims.
pub open spec fn claims_text(claims: Claims) -> Option<Seq<u8>> {
    json_text(Json::Object(claims))
}

/// The claims are plain: the reader takes them back from their text.
pub open spec fn claims_plain(claims: Claims) -> bool {
    json_plain(Json::Object(claims), plain_depth())
}

/// Setting a claim keeps the others, and the claims in order.
pub proof fn lemma_with_claim(claims: Claims, name: Seq<char>, value: Json)
    requires
        claims_ok(claims),
        claim_fits(name, value),
    ensures
        claims_ok(with_claim(claims, name, value)),
        lookup(with_claim(claims, name, value), name) == Some(value),
        forall|other: Seq<char>|
            other != name ==> lookup(with_claim(claims, name, value), other) == lookup(
                claims,
                other,
            ),
{
    let k = position(claims, name);
    let after = with_claim(claims, name, value);
    lemma_position_found(claims, name);
    lemma_position(after, name, k);
    assert forall|other: Seq<char>| other != name implies lookup(after, other) == lookup(
        claims,
        other,
    ) by {
        let j = position(claims, other);
        lemma_position_found(claims, other);
        if j < claims.len() {
            lemma_position(after, other, j);
        } else {
            lemma_position(after, other, after.len() as int);
        }
    }
}

/// Removing a claim keeps the others, and the claims in order.
pub proof fn lemma_without_claim(claims: Claims, name: Seq<char>)
    requires
        claims_ok(claims),
    ensures
        claims_ok(without_claim(claims, name)),
        lookup(without_claim(claims, name), name) is None,
        forall|other: Seq<char>|
            other != name ==> lookup(without_claim(claims, name), other) == lookup(claims, other),
{
    let k = position(claims, name);
    let after = without_claim(claims, name);
    lemma_position_found(claims, name);
    lemma_position(after, name, after.len() as int);
    assert forall|other: Seq<char>| other != name implies lookup(after, other) == lookup(
        claims,
        other,
    ) by {
        let j = position(claims, other);
        lemma_position_found(claims, other);
        if j < claims.len() {
            if k < claims.len() && k < j {
                lemma_position(after, other, j - 1);
            } else {
                lemma_position(after, other, j);
            }
        } else {
            lemma_position(after, other, after.len() as int);
        }
    }
}

/// The names that the engine reads and writes are different names.
pub proof fn lemma_names_differ()
    ensures
        "alg"@ != "enc"@,
        "alg"@ != "zip"@,
        "alg"@ != "kid"@,
        "alg"@ != "crit"@,
        "alg"@ != "iv"@,
        "alg"@ != "tag"@,
        "alg"@ != "p2s"@,
        "alg"@ != "p2c"@,
        "enc"@ != "zip"@,
        "enc"@ != "kid"@,
        "enc"@ != "crit"@,
        "enc"@ != "iv"@,
        "enc"@ != "tag"@,
        "enc"@ != "p2s"@,
        "enc"@ != "p2c"@,
        "zip"@ != "kid"@,
        "zip"@ != "crit"@,
        "zip"@ != "iv"@,
        "zip"@ != "tag"@,
        "zip"@ != "p2s"@,
        "zip"@ != "p2c"@,
        "kid"@ != "crit"@,
        "kid"@ != "iv"@,
        "kid"@ != "tag"@,
        "kid"@ != "p2s"@,
        "kid"@ != "p2c"@,
        "crit"@ != "iv"@,
        "crit"@ != "tag"@,
        "crit"@ != "p2s"@,
        "crit"@ != "p2c"@,
        "iv"@ != "tag"@,
        "iv"@ != "p2s"@,
        "iv"@ != "p2c"@,
        "tag"@ != "p2s"@,
        "tag"@ != "p2c"@,
        "p2s"@ != "p2c"@,
{
    reveal_strlit("alg");
    reveal_strlit("enc");
    reveal_strlit("zip");
    reveal_strlit("kid");
    reveal_strlit("crit");
    reveal_strlit("iv");
    reveal_strlit("tag");
    reveal_strlit("p2s");
    reveal_strlit("p2c");
    assert("alg"@.len() == 3 && "alg"@[0] == 'a' && "alg"@[1] == 'l' && "alg"@[2] == 'g');
    assert("enc"@.len() == 3 && "enc"@[0] == 'e' && "enc"@[1] == 'n' && "enc"@[2] == 'c');
    assert("zip"@.len() == 3 && "zip"@[0] == 'z' && "zip"@[1] == 'i' && "zip"@[2] == 'p');
    assert("kid"@.len() == 3 && "kid"@[0] == 'k' && "kid"@[1] == 'i' && "kid"@[2] == 'd');
    assert("crit"@.len() == 4 && "crit"@[0] == 'c' && "crit"@[1] == 'r' && "crit"@[2] == 'i' && "crit"@[3] == 't');
    assert("iv"@.len() == 2 && "iv"@[0] == 'i' && "iv"@[1] == 'v');
    assert("tag"@.len() == 3 && "tag"@[0] == 't' && "tag"@[1] == 'a' && "tag"@[2] == 'g');
    assert("p2s"@.len() == 3 && "p2s"@[0] == 'p' && "p2s"@[1] == '2' && "p2s"@[2] == 's');
    assert("p2c"@.len() == 3 && "p2c"@[0] == 'p' && "p2c"@[1] == '2' && "p2c"@[2] == 'c');
}

/// Two lists share a name with a third where one of them does.
pub proof fn lemma_share_name_concat(a: Claims, b: Claims, c: Claims)
    ensures
        share_name(a + b, c) == (share_name(a, c) || share_name(b, c)),
        share_name(c, a + b) == (share_name(c, a) || share_name(c, b)),
{
    let ab = a + b;
    if share_name(ab, c) {
        let (i, j) = choose|i: int, j: int|
            0 <= i < ab.len() && 0 <= j < c.len() && (#[trigger] ab[i]).0 == (#[trigger] c[j]).0;
        if i < a.len() {
            assert(a[i].0 == c[j].0);
        } else {
            assert(b[i - a.len()].0 == c[j].0);
        }
    }
    if share_name(a, c) {
        let (i, j) = choose|i: int, j: int|
            0 <= i < a.len() && 0 <= j < c.len() && (#[trigger] a[i]).0 == (#[trigger] c[j]).0;
        assert(ab[i].0 == c[j].0);
    }
    if share_name(b, c) {
        let (i, j) = choose|i: int, j: int|
            0 <= i < b.len() && 0 <= j < c.len() && (#[trigger] b[i]).0 == (#[trigger] c[j]).0;
        assert(ab[a.len() + i].0 == c[j].0);
    }
    if share_name(c, ab) {
        let (j, i) = choose|j: int, i: int|
            0 <= j < c.len() && 0 <= i < ab.len() && (#[trigger] c[j]).0 == (#[trigger] ab[i]).0;
        if i < a.len() {
            assert(c[j].0 == a[i].0);
        } else {
            assert(c[j].0 == b[i - a.len()].0);
        }
    }
    if share_name(c, a) {
        let (j, i) = choose|j: int, i: int|
            0 <= j < c.len() && 0 <= i < a.len() && (#[trigger] c[j]).0 == (#[trigger] a[i]).0;
        assert(c[j].0 == ab[i].0);
    }
    if share_name(c, b) {
        let (j, i) = choose|j: int, i: int|
            0 <= j < c.len() && 0 <= i < b.len() && (#[trigger] c[j]).0 == (#[trigger] b[i]).0;
        assert(c[j].0 == ab[a.len() + i].0);
    }
}

/// A name is a claim of the list exactly where looking it up finds a value.
pub proof fn lemma_lookup_is_membership(claims: Claims, name: Seq<char>)
    ensures
        lookup(claims, name) is Some <==> exists|i: int|
            0 <= i < claims.len() && (#[trigger] claims[i]).0 == name,
{
    lemma_position_found(claims, name);
    let k = position(claims, name);
    if lookup(claims, name) is Some {
        assert(claims[k].0 == name);
    }
}

/// The claims of a header.
#[derive(Debug)]
pub struct JweHeader {
    claims: Vec<(String, JsonValue)>,
}

impl View for JweHeader {
    type V = Claims;

    closed spec fn view(&self) -> Claims {
        members_view(self.claims@)
    }
}

/// Says whether `value` is a list of strings.
#[verifier::loop_isolation(false)]
fn check_text_list(value: &JsonValue) -> (r: bool)
    ensures
        r == is_text_list(value@),
{
    match value {
        JsonValue::Array(items) => {
            proof {
                crate::json::lemma_array_view(*items);
            }
            let mut i: usize = 0;
            while i < items.len()
                invariant
                    i <= items@.len(),
                    forall|k: int| 0 <= k < i ==> items@[k]@ is String,
                decreases items@.len() - i,
            {
                match &items[i] {
                    JsonValue::String(_) => {},
                    _ => {
                        assert(!(crate::json::items_view(items@)[i as int] is String));
                        return false;
                    },
                }
                i += 1;
            }
            true
        },
        _ => false,
    }
}

/// Says whether `value` has the type that the claim `name` asks for.
pub fn check_claim(name: &str, value: &JsonValue) -> (r: bool)
    ensures
        r == claim_fits(name@, value@),
{
    if str_eq(name, "alg") || str_eq(name, "enc") || str_eq(name, "zip") || str_eq(name, "jku")
        || str_eq(name, "x5u") || str_eq(name, "x5t") || str_eq(name, "x5t#S256") || str_eq(
        name,
        "kid",
    ) || str_eq(name, "typ") || str_eq(name, "cty") {
        match value {
            JsonValue::String(_) => true,
            _ => false,
        }
    } else if str_eq(name, "crit") || str_eq(name, "x5c") {
        check_text_list(value)
    } else if str_eq(name, "jwk") {
        match value {
            JsonValue::Object(_) => true,
            _ => false,
        }
    } else {
        true
    }
}

impl JweHeader {
    /// The header's invariant: no name twice, and every registered claim of
    /// its type.
    pub open spec fn wf(&self) -> bool {
        claims_ok(self@)
    }

    /// A header without claims.
    pub fn new() -> (r: JweHeader)
        ensures
            r@ == Seq::<(Seq<char>, Json)>::empty(),
            r.wf(),
    {
        let r = JweHeader { claims: Vec::new() };
        assert(r@ =~= Seq::<(Seq<char>, Json)>::empty());
        r
    }

    /// The number of claims.
    pub fn len(&self) -> (r: usize)
        ensures
            r == self@.len(),
    {
        self.claims.len()
    }

    /// The value of the claim `name`.
    pub fn claim(&self, name: &str) -> (r: Option<&JsonValue>)
        ensures
            match r {
                Some(v) => lookup(self@, name@) == Some(v@),
                None => lookup(self@, name@) is None,
            },
    {
        match find_member(&self.claims, name) {
            Some(k) => Some(&self.claims[k].1),
            None => None,
        }
    }

    /// The text of the claim `name`, where that claim is a string.
    pub fn text_claim(&self, name: &str) -> (r: Option<&str>)
        ensures
            match r {
                Some(t) => lookup_text(self@, name@) == Some(t@),
                None => lookup_text(self@, name@) is None,
            },
    {
        match self.claim(name) {
            Some(JsonValue::String(t)) => Some(t.as_str()),
            _ => None,
        }
    }

    /// Sets the claim `name` to `value`, or removes it where `value` is
    /// `None`. A value of the wrong type for a registered claim is refused and
    /// the header stays as it was.
#[verifier::rlimit(40)]
    pub fn set_claim(&mut self, name: &str, value: Option<JsonValue>) -> (r: Result<(), JoseError>)
        requires
            old(self).wf(),
        ensures
            final(self).wf(),
            match value {
                Some(v) => if claim_fits(name@, v@) {
                    r is Ok && final(self)@ == with_claim(old(self)@, name@, v@)
                } else {
                    r == Err::<(), JoseError>(JoseError::MalformedInput) && final(self)@ == old(
                        self,
                    )@
                },
                None => r is Ok && final(self)@ == without_claim(old(self)@, name@),
            },
    {
        match value {
            Some(v) => {
                if !check_claim(name, &v) {
                    return Err(JoseError::MalformedInput);
                }
                proof {
                    lemma_with_claim(self@, name@, v@);
                }
                match find_member(&self.claims, name) {
                    Some(k) => {
                        self.claims.set(k, (name.to_owned(), v));
                        assert(self@ =~= with_claim(old(self)@, name@, v@));
                    },
                    None => {
                        self.claims.push((name.to_owned(), v));
                        assert(self@ =~= with_claim(old(self)@, name@, v@));
                    },
                }
                Ok(())
            },
            None => {
                proof {
                    lemma_without_claim(self@, name@);
                }
                match find_member(&self.claims, name) {
                    Some(k) => {
                        self.claims.remove(k);
                        assert(self@ =~= without_claim(old(self)@, name@));
                    },
                    None => {},
                }
                Ok(())
            },
        }
    }

    /// Sets a claim to a string. No claim asks for another type than its
    /// registered names do, so this does not fail for a name that is not a
    /// list or an object claim.
    pub fn set_text_claim(&mut self, name: &str, text: &str)
        requires
            old(self).wf(),
            claim_fits(name@, Json::String(text@)),
        ensures
            final(self).wf(),
            final(self)@ == with_claim(old(self)@, name@, Json::String(text@)),
    {
        let _ = self.set_claim(name, Some(JsonValue::String(text.to_owned())));
    }

    /// The key-management algorithm's name: the claim `alg`.
    pub fn algorithm(&self) -> (r: Option<&str>)
        ensures
            match r {
                Some(t) => lookup_text(self@, "alg"@) == Some(t@),
                None => lookup_text(self@, "alg"@) is None,
            },
    {
        self.text_claim("alg")
    }

    /// The content-encryption algorithm's name: the claim `enc`.
    pub fn content_encryption(&self) -> (r: Option<&str>)
        ensures
            match r {
                Some(t) => lookup_text(self@, "enc"@) == Some(t@),
                None => lookup_text(self@, "enc"@) is None,
            },
    {
        self.text_claim("enc")
    }

    /// The compression algorithm's name: the claim `zip`.
    pub fn compression(&self) -> (r: Option<&str>)
        ensures
            match r {
                Some(t) => lookup_text(self@, "zip"@) == Some(t@),
                None => lookup_text(self@, "zip"@) is None,
            },
    {
        self.text_claim("zip")
    }

    /// The key's identifier: the claim `kid`.
    pub fn key_id(&self) -> (r: Option<&str>)
        ensures
            match r {
                Some(t) => lookup_text(self@, "kid"@) == Some(t@),
                None => lookup_text(self@, "kid"@) is None,
            },
    {
        self.text_claim("kid")
    }

    /// The token's type: the claim `typ`.
    pub fn token_type(&self) -> (r: Option<&str>)
        ensures
            match r {
                Some(t) => lookup_text(self@, "typ"@) == Some(t@),
                None => lookup_text(self@, "typ"@) is None,
            },
    {
        self.text_claim("typ")
    }

    /// The content's type: the claim `cty`.
    pub fn content_type(&self) -> (r: Option<&str>)
        ensures
            match r {
                Some(t) => lookup_text(self@, "cty"@) == Some(t@),
                None => lookup_text(self@, "cty"@) is None,
            },
    {
        self.text_claim("cty")
    }

    /// The names that the header calls critical: the claim `crit`.
    #[verifier::loop_isolation(false)]
    pub fn critical(&self) -> (r: Option<Vec<String>>)
        requires
            self.wf(),
        ensures
            match r {
                Some(names) => lookup(self@, "crit"@) == Some(text_list(names@)),
                None => lookup(self@, "crit"@) is None,
            },
    {
        match self.claim("crit") {
            Some(JsonValue::Array(items)) => {
                proof {
                    crate::json::lemma_array_view(*items);
                    lemma_position_found(self@, "crit"@);
                    reveal_strlit("crit");
                    reveal_strlit("alg");
                    reveal_strlit("enc");
                    reveal_strlit("zip");
                    reveal_strlit("jku");
                    reveal_strlit("x5u");
                    reveal_strlit("x5t");
                    reveal_strlit("x5t#S256");
                    reveal_strlit("kid");
                    reveal_strlit("typ");
                    reveal_strlit("cty");
                    assert("crit"@.len() == 4);
                    assert(!is_text_claim("crit"@));
                    assert(claim_fits("crit"@, self@[position(self@, "crit"@)].1));
                }
                let ghost listed = crate::json::items_view(items@);
                let mut names: Vec<String> = Vec::new();
                let mut i: usize = 0;
                while i < items.len()
                    invariant
                        i <= items@.len(),
                        names@.len() == i,
                        is_text_list(Json::Array(listed)),
                        forall|k: int| 0 <= k < i ==> listed[k] == Json::String(names@[k]@),
                    decreases items@.len() - i,
                {
                    match &items[i] {
                        JsonValue::String(name) => {
                            names.push(name.clone());
                        },
                        _ => {
                            assert(listed[i as int] is String);
                        },
                    }
                    i += 1;
                }
                assert(listed =~= Seq::new(names@.len(), |k: int| Json::String(names@[k]@)));
                Some(names)
            },
            Some(_) => {
                proof {
                    lemma_position_found(self@, "crit"@);
                    reveal_strlit("crit");
                    reveal_strlit("alg");
                    reveal_strlit("enc");
                    reveal_strlit("zip");
                    reveal_strlit("jku");
                    reveal_strlit("x5u");
                    reveal_strlit("x5t");
                    reveal_strlit("x5t#S256");
                    reveal_strlit("kid");
                    reveal_strlit("typ");
                    reveal_strlit("cty");
                    assert("crit"@.len() == 4);
                    assert(!is_text_claim("crit"@));
                    assert(claim_fits("crit"@, self@[position(self@, "crit"@)].1));
                }
                None
            },
            None => None,
        }
    }

    /// Sets the claim `alg`.
    pub fn set_algorithm(&mut self, value: &str)
        requires
            old(self).wf(),
        ensures
            final(self).wf(),
            final(self)@ == with_claim(old(self)@, "alg"@, Json::String(value@)),
    {
        self.set_text_claim("alg", value);
    }

    /// Sets the claim `enc`.
    pub fn set_content_encryption(&mut self, value: &str)
        requires
            old(self).wf(),
        ensures
            final(self).wf(),
            final(self)@ == with_claim(old(self)@, "enc"@, Json::String(value@)),
    {
        self.set_text_claim("enc", value);
    }

    /// Sets the claim `zip`.
    pub fn set_compression(&mut self, value: &str)
        requires
            old(self).wf(),
        ensures
            final(self).wf(),
            final(self)@ == with_claim(old(self)@, "zip"@, Json::String(value@)),
    {
        self.set_text_claim("zip", value);
    }

    /// Sets the claim `kid`.
    pub fn set_key_id(&mut self, value: &str)
        requires
            old(self).wf(),
        ensures
            final(self).wf(),
            final(self)@ == with_claim(old(self)@, "kid"@, Json::String(value@)),
    {
        self.set_text_claim("kid", value);
    }

    /// Sets the claim `typ`.
    pub fn set_token_type(&mut self, value: &str)
        requires
            old(self).wf(),
        ensures
            final(self).wf(),
            final(self)@ == with_claim(old(self)@, "typ"@, Json::String(value@)),
    {
        self.set_text_claim("typ", value);
    }

    /// Sets the claim `cty`.
    pub fn set_content_type(&mut self, value: &str)
        requires
            old(self).wf(),
        ensures
            final(self).wf(),
            final(self)@ == with_claim(old(self)@, "cty"@, Json::String(value@)),
    {
        self.set_text_claim("cty", value);
    }

    /// Sets the claim `crit` to a list of names.
    pub fn set_critical(&mut self, names: &Vec<String>)
        requires
            old(self).wf(),
        ensures
            final(self).wf(),
            final(self)@ == with_claim(old(self)@, "crit"@, text_list(names@)),
    {
        let mut items: Vec<JsonValue> = Vec::new();
        let mut i: usize = 0;
        while i < names.len()
            invariant
                i <= names@.len(),
                items@.len() == i,
                forall|k: int| 0 <= k < i ==> items@[k]@ == Json::String(names@[k]@),
            decreases names@.len() - i,
        {
            items.push(JsonValue::String(names[i].clone()));
            i += 1;
        }
        proof {
            crate::json::lemma_array_view(items);
            assert(crate::json::items_view(items@) =~= Seq::new(
                names@.len(),
                |k: int| Json::String(names@[k]@),
            ));
            reveal_strlit("crit");
            reveal_strlit("alg");
            reveal_strlit("enc");
            reveal_strlit("zip");
            reveal_strlit("jku");
            reveal_strlit("x5u");
            reveal_strlit("x5t");
            reveal_strlit("x5t#S256");
            reveal_strlit("kid");
            reveal_strlit("typ");
            reveal_strlit("cty");
            assert("crit"@.len() == 4);
            assert(!is_text_claim("crit"@));
            assert(is_text_list(text_list(names@)));
            assert(claim_fits("crit"@, text_list(names@)));
        }
        let _ = self.set_claim("crit", Some(JsonValue::Array(items)));
    }

    /// Both headers' claims in one header, those of `self` first. Fails where
    /// a name is a claim of both.
    #[verifier::loop_isolation(false)]
#[verifier::rlimit(40)]
    pub fn merge(&self, other: &JweHeader) -> (r: Result<JweHeader, JoseError>)
        requires
            self.wf(),
            other.wf(),
        ensures
            match r {
                Ok(h) => !share_name(self@, other@) && h@ == self@ + other@ && h.wf(),
                Err(e) => share_name(self@, other@) && e == JoseError::HeaderConflict,
            },
    {
        let mut claims: Vec<(String, JsonValue)> = Vec::new();
        let mut i: usize = 0;
        while i < self.claims.len()
            invariant
                i <= self.claims@.len(),
                members_view(claims@) == self@.subrange(0, i as int),
            decreases self.claims@.len() - i,
        {
            claims.push((self.claims[i].0.clone(), self.claims[i].1.clone()));
            i += 1;
            assert(members_view(claims@) =~= self@.subrange(0, i as int));
        }
        assert(self@.subrange(0, self@.len() as int) =~= self@);
        let mut j: usize = 0;
        while j < other.claims.len()
            invariant
                j <= other.claims@.len(),
                members_view(claims@) == self@ + other@.subrange(0, j as int),
                forall|a: int, b: int|
                    0 <= a < self@.len() && 0 <= b < j ==> (#[trigger] self@[a]).0 != (
                    #[trigger] other@[b]).0,
            decreases other.claims@.len() - j,
        {
            match find_member(&self.claims, other.claims[j].0.as_str()) {
                Some(k) => {
                    proof {
                        lemma_position_found(self@, other@[j as int].0);
                    }
                    assert(self@[k as int].0 == other@[j as int].0);
                    return Err(JoseError::HeaderConflict);
                },
                None => {
                    proof {
                        lemma_position_found(self@, other@[j as int].0);
                    }
                },
            }
            let ghost before = members_view(claims@);
            claims.push((other.claims[j].0.clone(), other.claims[j].1.clone()));
            j += 1;
            assert(members_view(claims@) =~= before.push(other@[j - 1]));
            assert(other@.subrange(0, j as int) =~= other@.subrange(0, j - 1).push(other@[j - 1]));
            assert(members_view(claims@) =~= self@ + other@.subrange(0, j as int));
        }
        assert(other@.subrange(0, other@.len() as int) =~= other@);
        let h = JweHeader { claims };
        assert(h@ == self@ + other@);
        assert(claims_ok(h@)) by {
            let m = h@;
            assert forall|a: int, b: int| 0 <= a < b < m.len() implies (#[trigger] m[a]).0 != (
            #[trigger] m[b]).0 by {
                if b < self@.len() {
                    assert(m[a] == self@[a] && m[b] == self@[b]);
                } else if a >= self@.len() {
                    assert(m[a] == other@[a - self@.len()] && m[b] == other@[b - self@.len()]);
                } else {
                    assert(m[a] == self@[a] && m[b] == other@[b - self@.len()]);
                }
            }
            assert forall|a: int| 0 <= a < m.len() implies claim_fits(
                (#[trigger] m[a]).0,
                m[a].1,
            ) by {
                if a < self@.len() {
                    assert(m[a] == self@[a]);
                } else {
                    assert(m[a] == other@[a - self@.len()]);
                }
            }
        }
        Ok(h)
    }

    /// Makes a header of the members of a JSON object. Fails where a name
    /// occurs twice or a registered claim has the wrong type.
    #[verifier::loop_isolation(false)]
#[verifier::rlimit(40)]
    pub fn from_members(members: Vec<(String, JsonValue)>) -> (r: Result<JweHeader, JoseError>)
        ensures
            match r {
                Ok(h) => claims_ok(members_view(members@)) && h@ == members_view(members@)
                    && h.wf(),
                Err(e) => !claims_ok(members_view(members@)) && e == JoseError::MalformedInput,
            },
    {
        let ghost m = members_view(members@);
        let mut i: usize = 0;
        while i < members.len()
            invariant
                i <= members@.len(),
                m == members_view(members@),
                forall|a: int, b: int| 0 <= a < b < i ==> (#[trigger] m[a]).0 != (#[trigger] m[b]).0,
                forall|a: int| 0 <= a < i ==> claim_fits((#[trigger] m[a]).0, m[a].1),
            decreases members@.len() - i,
        {
            if !check_claim(members[i].0.as_str(), &members[i].1) {
                assert(!claim_fits(m[i as int].0, m[i as int].1));
                return Err(JoseError::MalformedInput);
            }
            match find_member(&members, members[i].0.as_str()) {
                Some(k) => {
                    if k != i {
                        proof {
                            lemma_position_found(m, m[i as int].0);
                            assert(m[k as int].0 == m[i as int].0);
                        }
                        return Err(JoseError::MalformedInput);
                    }
                    proof {
                        lemma_position_found(m, m[i as int].0);
                    }
                },
                None => {
                    proof {
                        lemma_position_found(m, m[i as int].0);
                    }
                },
            }
            i += 1;
        }
        Ok(JweHeader { claims: members })
    }

    /// Reads a header from its JSON text.
    pub fn from_bytes(text: &[u8]) -> (r: Result<JweHeader, JoseError>)
        ensures
            match r {
                Ok(h) => claims_parsed(text@) == Some(h@) && h.wf(),
                Err(e) => claims_parsed(text@) is None && e == JoseError::MalformedInput,
            },
    {
        match JsonValue::parse(text) {
            Some(JsonValue::Object(members)) => {
                proof {
                    lemma_object_view(members);
                }
                JweHeader::from_members(members)
            },
            _ => Err(JoseError::MalformedInput),
        }
    }

    /// Writes the header as JSON text. Plain claims are read back from their
    /// text unchanged.
    pub fn to_bytes(&self) -> (r: Option<Vec<u8>>)
        requires
            self.wf(),
        ensures
            crate::json::bytes_view(r) == claims_text(self@),
            claims_plain(self@) ==> r is Some && claims_parsed(r->0@) == Some(self@),
    {
        let object = JsonValue::Object(self.copy_claims());
        object.render()
    }

    /// A copy of the claims.
    #[verifier::loop_isolation(false)]
    fn copy_claims(&self) -> (r: Vec<(String, JsonValue)>)
        ensures
            members_view(r@) == self@,
            JsonValue::Object(r)@ == Json::Object(self@),
    {
        let mut claims: Vec<(String, JsonValue)> = Vec::new();
        let mut i: usize = 0;
        while i < self.claims.len()
            invariant
                i <= self.claims@.len(),
                members_view(claims@) == self@.subrange(0, i as int),
            decreases self.claims@.len() - i,
        {
            claims.push((self.claims[i].0.clone(), self.claims[i].1.clone()));
            i += 1;
            assert(members_view(claims@) =~= self@.subrange(0, i as int));
        }
        assert(self@.subrange(0, self@.len() as int) =~= self@);
        proof {
            lemma_object_view(claims);
        }
        claims
    }

    /// Says whether both headers hold the same claims, in whatever order.
    pub fn same_claims_as(&self, other: &JweHeader) -> (r: bool)
        ensures
            r == crate::equality::same_claims(self@, other@),
    {
        if self.claims.len() != other.claims.len() {
            return false;
        }
        let mut i: usize = 0;
        while i < self.claims.len()
            invariant
                i <= self.claims@.len(),
                self@.len() == other@.len(),
                forall|k: int| 0 <= k < i ==> lookup(other@, (#[trigger] self@[k]).0) == Some(self@[k].1),
            decreases self.claims@.len() - i,
        {
            match other.claim(self.claims[i].0.as_str()) {
                Some(v) => {
                    if !v.same(&self.claims[i].1) {
                        assert(lookup(other@, self@[i as int].0) != Some(self@[i as int].1));
                        return false;
                    }
                },
                None => {
                    assert(lookup(other@, self@[i as int].0) != Some(self@[i as int].1));
                    return false;
                },
            }
            i += 1;
        }
        true
    }

    /// The header as a JSON object.
    pub fn to_json(&self) -> (r: JsonValue)
        ensures
            r@ == Json::Object(self@),
    {
        JsonValue::Object(self.copy_claims())
    }
}

impl Clone for JweHeader {
    fn clone(&self) -> (r: Self)
        ensures
            r@ == self@,
    {
        JweHeader { claims: self.copy_claims() }
    }
}

} // verus!
