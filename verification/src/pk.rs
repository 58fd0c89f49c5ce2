use crate::crypto::MAX_INPUT_LEN;
use openssl::bn::{BigNum, BigNumContext};
use openssl::derive::Deriver;
use openssl::ec::{EcGroup, EcKey};
use openssl::encrypt::{Decrypter, Encrypter};
use openssl::hash::MessageDigest;
use openssl::nid::Nid;
use openssl::pkey::PKey;
use openssl::rsa::Padding;
use vstd::prelude::*;

verus! {

/// The hash functions that OAEP takes, for the hash and for the mask.
#[derive(Clone, Copy, Debug, PartialEq, Eq, Structural)]
pub enum OaepHash {
    Sha1,
    Sha256,
    Sha384,
    Sha512,
}

/// The curves on which keys are agreed.
#[derive(Clone, Copy, Debug, PartialEq, Eq, Structural)]
pub enum EcCurve {
    P256,
    P384,
    P521,
}

impl OaepHash {
    /// The digest's length in bits.
    pub open spec fn bits(self) -> nat {
        match self {
            OaepHash::Sha1 => 160,
            OaepHash::Sha256 => 256,
            OaepHash::Sha384 => 384,
            OaepHash::Sha512 => 512,
        }
    }
}

impl EcCurve {
    /// The size of the curve's field in bits.
    pub open spec fn bits(self) -> nat {
        match self {
            EcCurve::P256 => 256,
            EcCurve::P384 => 384,
            EcCurve::P521 => 521,
        }
    }
}

/// The public key that belongs to a private key given in DER, itself in DER
/// as the crate writes it; `None` where the private key is refused, is
/// neither an RSA key nor a key on a curve, or fails the crate's check that
/// its parts belong together.
pub uninterp spec fn public_of(private_der: Seq<u8>) -> Option<Seq<u8>>;

/// The key that RSA decryption with PKCS #1 v1.5 padding, under a private
/// key given in DER, recovers from a ciphertext; `None` where the key or the
/// ciphertext is refused.
pub uninterp spec fn rsa_pkcs1_opened(private_der: Seq<u8>, ciphertext: Seq<u8>) -> Option<Seq<u8>>;

/// The key that RSA decryption with OAEP, with the hash function of `bits`
/// bits, under a private key given in DER, recovers from a ciphertext; `None`
/// where the key or the ciphertext is refused.
pub uninterp spec fn rsa_oaep_opened(bits: nat, private_der: Seq<u8>, ciphertext: Seq<u8>) -> Option<
    Seq<u8>,
>;

/// The size in bits of the field of the curve that a private key, given in
/// DER, is on; `None` where it is no key on one of the three curves.
pub uninterp spec fn ec_curve_bits(private_der: Seq<u8>) -> Option<nat>;

/// The affine coordinates of the public point of a private key given in DER,
/// each as a big-endian number without leading zeros.
pub uninterp spec fn ec_point(private_der: Seq<u8>) -> Option<(Seq<u8>, Seq<u8>)>;

/// The public key in DER that has the given coordinates on the curve of the
/// given size; `None` where they are no point of it.
pub uninterp spec fn ec_public_encoded(bits: nat, x: Seq<u8>, y: Seq<u8>) -> Option<Seq<u8>>;

/// The secret that a private key and a peer's public key, both in DER, agree
/// on; `None` where either is refused or they are on different curves.
pub uninterp spec fn ecdh_secret(private_der: Seq<u8>, public_der: Seq<u8>) -> Option<Seq<u8>>;

/// Reads a private key with `PKey::private_key_from_der`, has
/// `Rsa::check_key` or, where it is no RSA key, `EcKey::check_key` say that
/// its parts belong together, and writes its public key with
/// `public_key_to_der`. The contract names the outcome.
#[verifier::external_body]
pub(crate) fn public_der(private_der: &[u8]) -> (r: Option<Vec<u8>>)
    ensures
        match r {
            Some(d) => public_of(private_der@) == Some(d@),
            None => public_of(private_der@) is None,
        },
{
    let key = PKey::private_key_from_der(private_der).ok()?;
    match key.rsa() {
        Ok(rsa) => match rsa.check_key() {
            Ok(true) => key.public_key_to_der().ok(),
            _ => None,
        },
        Err(_) => {
            key.ec_key().ok()?.check_key().ok()?;
            key.public_key_to_der().ok()
        },
    }
}

/// Encrypts `data` with `openssl::encrypt::Encrypter`, with PKCS #1 v1.5
/// padding, under a public key read by `PKey::public_key_from_der`. The
/// padding is random, so the ciphertext has no name. What holds of every
/// ciphertext: decryption with the same padding, under a private key to
/// which the public key belongs, gives the data back.
#[verifier::external_body]
pub(crate) fn rsa_seal_pkcs1(public_der: &[u8], data: &[u8]) -> (r: Option<Vec<u8>>)
    ensures
        r matches Some(c) ==> forall|private_der: Seq<u8>|
            #[trigger] public_of(private_der) == Some(public_der@) ==> rsa_pkcs1_opened(
                private_der,
                c@,
            ) == Some(data@),
{
    let key = PKey::public_key_from_der(public_der).ok()?;
    let mut ctx = Encrypter::new(&key).ok()?;
    ctx.set_rsa_padding(Padding::PKCS1).ok()?;
    let mut out = vec![0u8; ctx.encrypt_len(data).ok()?];
    let written = ctx.encrypt(data, &mut out).ok()?;
    out.truncate(written);
    Some(out)
}

/// Encrypts `data` with `openssl::encrypt::Encrypter`, with OAEP padding and
/// one hash function for the hash and the mask, under a public key read by
/// `PKey::public_key_from_der`. The padding is random, so the ciphertext has
/// no name. What holds of every ciphertext: decryption with the same padding
/// and hash function, under a private key to which the public key belongs,
/// gives the data back.
#[verifier::external_body]
pub(crate) fn rsa_seal_oaep(hash: OaepHash, public_der: &[u8], data: &[u8]) -> (r: Option<Vec<u8>>)
    ensures
        r matches Some(c) ==> forall|private_der: Seq<u8>|
            #[trigger] public_of(private_der) == Some(public_der@) ==> rsa_oaep_opened(
                hash.bits(),
                private_der,
                c@,
            ) == Some(data@),
{
    let key = PKey::public_key_from_der(public_der).ok()?;
    let mut ctx = Encrypter::new(&key).ok()?;
    let digest = match hash {
        OaepHash::Sha1 => MessageDigest::sha1(),
        OaepHash::Sha256 => MessageDigest::sha256(),
        OaepHash::Sha384 => MessageDigest::sha384(),
        OaepHash::Sha512 => MessageDigest::sha512(),
    };
    ctx.set_rsa_padding(Padding::PKCS1_OAEP).ok()?;
    ctx.set_rsa_oaep_md(digest).ok()?;
    ctx.set_rsa_mgf1_md(digest).ok()?;
    let mut out = vec![0u8; ctx.encrypt_len(data).ok()?];
    let written = ctx.encrypt(data, &mut out).ok()?;
    out.truncate(written);
    Some(out)
}

/// Decrypts with `openssl::encrypt::Decrypter`, with PKCS #1 v1.5 padding,
/// under a private key read by `PKey::private_key_from_der`. The contract
/// names the outcome.
#[verifier::external_body]
pub(crate) fn rsa_open_pkcs1(private_der: &[u8], ciphertext: &[u8]) -> (r: Option<Vec<u8>>)
    ensures
        match r {
            Some(k) => rsa_pkcs1_opened(private_der@, ciphertext@) == Some(k@),
            None => rsa_pkcs1_opened(private_der@, ciphertext@) is None,
        },
{
    let key = PKey::private_key_from_der(private_der).ok()?;
    let mut ctx = Decrypter::new(&key).ok()?;
    ctx.set_rsa_padding(Padding::PKCS1).ok()?;
    let mut out = vec![0u8; ctx.decrypt_len(ciphertext).ok()?];
    let written = ctx.decrypt(ciphertext, &mut out).ok()?;
    out.truncate(written);
    Some(out)
}

/// Decrypts with `openssl::encrypt::Decrypter`, with OAEP padding and one
/// hash function for the hash and the mask, under a private key read by
/// `PKey::private_key_from_der`. The contract names the outcome.
#[verifier::external_body]
pub(crate) fn rsa_open_oaep(hash: OaepHash, private_der: &[u8], ciphertext: &[u8]) -> (r: Option<
    Vec<u8>,
>)
    ensures
        match r {
            Some(k) => rsa_oaep_opened(hash.bits(), private_der@, ciphertext@) == Some(k@),
            None => rsa_oaep_opened(hash.bits(), private_der@, ciphertext@) is None,
        },
{
    let key = PKey::private_key_from_der(private_der).ok()?;
    let mut ctx = Decrypter::new(&key).ok()?;
    let digest = match hash {
        OaepHash::Sha1 => MessageDigest::sha1(),
        OaepHash::Sha256 => MessageDigest::sha256(),
        OaepHash::Sha384 => MessageDigest::sha384(),
        OaepHash::Sha512 => MessageDigest::sha512(),
    };
    ctx.set_rsa_padding(Padding::PKCS1_OAEP).ok()?;
    ctx.set_rsa_oaep_md(digest).ok()?;
    ctx.set_rsa_mgf1_md(digest).ok()?;
    let mut out = vec![0u8; ctx.decrypt_len(ciphertext).ok()?];
    let written = ctx.decrypt(ciphertext, &mut out).ok()?;
    out.truncate(written);
    Some(out)
}

/// Makes a fresh key with `EcKey::generate` on the curve of a public key read
/// by `PKey::public_key_from_der`, and gives its private key in DER. The key
/// is random. What the contract claims of every outcome is that the
/// agreement goes both ways: where the fresh key is on one of the three
/// curves, a private key to which the public key belongs reads the fresh
/// key's public point as a key, and agrees with it on the secret that the
/// fresh key agrees on with the public key.
#[verifier::external_body]
pub(crate) fn ec_ephemeral(public_der: &[u8]) -> (r: Option<Vec<u8>>)
    ensures
        r matches Some(fresh) ==> crate::agreement::agrees_back(fresh@, public_der@),
{
    let peer = PKey::public_key_from_der(public_der).ok()?.ec_key().ok()?;
    let fresh = EcKey::generate(peer.group()).ok()?;
    PKey::from_ec_key(fresh).ok()?.private_key_to_der().ok()
}

/// Reads a private key with `PKey::private_key_from_der` and tells its curve
/// by `EcGroupRef::curve_name`. The contract names the outcome.
#[verifier::external_body]
pub(crate) fn ec_curve(private_der: &[u8]) -> (r: Option<EcCurve>)
    ensures
        match r {
            Some(c) => ec_curve_bits(private_der@) == Some(c.bits()),
            None => ec_curve_bits(private_der@) is None,
        },
{
    let key = PKey::private_key_from_der(private_der).ok()?.ec_key().ok()?;
    match key.group().curve_name()? {
        Nid::X9_62_PRIME256V1 => Some(EcCurve::P256),
        Nid::SECP384R1 => Some(EcCurve::P384),
        Nid::SECP521R1 => Some(EcCurve::P521),
        _ => None,
    }
}

/// Reads a private key with `PKey::private_key_from_der` and gives the
/// coordinates of its public point by `EcPointRef::affine_coordinates`, each
/// as `BigNumRef::to_vec` writes it. The contract names the outcome.
#[verifier::external_body]
pub(crate) fn ec_coordinates(private_der: &[u8]) -> (r: Option<(Vec<u8>, Vec<u8>)>)
    ensures
        match r {
            Some((x, y)) => ec_point(private_der@) == Some((x@, y@)),
            None => ec_point(private_der@) is None,
        },
{
    let key = PKey::private_key_from_der(private_der).ok()?.ec_key().ok()?;
    let mut ctx = BigNumContext::new().ok()?;
    let mut x = BigNum::new().ok()?;
    let mut y = BigNum::new().ok()?;
    key.public_key().affine_coordinates(key.group(), &mut x, &mut y, &mut ctx).ok()?;
    Some((x.to_vec(), y.to_vec()))
}

/// Makes a public key of two coordinates with
/// `EcKey::from_public_key_affine_coordinates` and gives it in DER. The
/// contract names the outcome.
#[verifier::external_body]
pub(crate) fn ec_public_der(curve: EcCurve, x: &[u8], y: &[u8]) -> (r: Option<Vec<u8>>)
    requires
        x@.len() <= MAX_INPUT_LEN,
        y@.len() <= MAX_INPUT_LEN,
    ensures
        match r {
            Some(d) => ec_public_encoded(curve.bits(), x@, y@) == Some(d@),
            None => ec_public_encoded(curve.bits(), x@, y@) is None,
        },
{
    let nid = match curve {
        EcCurve::P256 => Nid::X9_62_PRIME256V1,
        EcCurve::P384 => Nid::SECP384R1,
        EcCurve::P521 => Nid::SECP521R1,
    };
    let group = EcGroup::from_curve_name(nid).ok()?;
    let x = BigNum::from_slice(x).ok()?;
    let y = BigNum::from_slice(y).ok()?;
    let key = EcKey::from_public_key_affine_coordinates(&group, &x, &y).ok()?;
    PKey::from_ec_key(key).ok()?.public_key_to_der().ok()
}

/// Agrees on a secret with `openssl::derive::Deriver` between a private key
/// read by `PKey::private_key_from_der` and a peer's public key read by
/// `PKey::public_key_from_der`. The contract names the outcome.
#[verifier::external_body]
pub(crate) fn ecdh_agree(private_der: &[u8], public_der: &[u8]) -> (r: Option<Vec<u8>>)
    ensures
        match r {
            Some(z) => ecdh_secret(private_der@, public_der@) == Some(z@),
            None => ecdh_secret(private_der@, public_der@) is None,
        },
{
    let own = PKey::private_key_from_der(private_der).ok()?;
    let peer = PKey::public_key_from_der(public_der).ok()?;
    let mut deriver = Deriver::new(&own).ok()?;
    deriver.set_peer(&peer).ok()?;
    deriver.derive_to_vec().ok()
}

} // verus!
