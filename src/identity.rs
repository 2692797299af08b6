//! Identities: an RSA key pair for oneself ([`Id`]), a public key for a peer
//! ([`PublicId`]). A user's uid is the base64 text of the DER encoding of the
//! public key.
use base64::DecodeError;
use openssl::error::ErrorStack;
use openssl::pkey::{HasPrivate, HasPublic, Private, Public};
use openssl::rsa::Rsa;
use vstd::prelude::*;

use crate::error::AetherError;

verus! {

/// Size of the RSA keys, in bits.
pub const RSA_SIZE: u32 = 1024;

/// The longest input that the RSA primitives accept.
pub const MAX_RSA_INPUT: usize = 0x7fff_ffff;

#[verifier::external_type_specification]
#[verifier::external_body]
#[verifier::reject_recursive_types(T)]
pub struct ExRsa<T>(Rsa<T>);

#[verifier::external_type_specification]
#[verifier::external_body]
pub struct ExPrivate(Private);

#[verifier::external_type_specification]
#[verifier::external_body]
pub struct ExPublic(Public);

#[verifier::external_type_specification]
#[verifier::external_body]
pub struct ExDecodeError(DecodeError);

/// Relies on `Clone for Rsa`, which hands out another reference to the same key.
pub assume_specification<T>[ <Rsa<T> as Clone>::clone ](rsa: &Rsa<T>) -> Rsa<T>;

/// The standard base64 text of `bytes`.
pub uninterp spec fn base64_of(bytes: Seq<u8>) -> Seq<char>;

/// Relies on `openssl::rsa::Rsa::generate`, which makes a fresh key pair.
#[verifier::external_body]
fn rsa_generate(bits: u32) -> (r: Result<Rsa<Private>, ErrorStack>) {
    Rsa::generate(bits)
}

/// Relies on `RsaRef::public_key_to_der`, the DER encoding of the public key.
#[verifier::external_body]
fn rsa_public_der<T: HasPublic>(rsa: &Rsa<T>) -> (r: Result<Vec<u8>, ErrorStack>) {
    rsa.public_key_to_der()
}

/// Relies on `RsaRef::private_key_to_der`, the DER encoding of the private key.
#[verifier::external_body]
fn rsa_private_der(rsa: &Rsa<Private>) -> (r: Result<Vec<u8>, ErrorStack>) {
    rsa.private_key_to_der()
}

/// Relies on `Rsa::public_key_from_der`, which reads a DER-encoded public key.
#[verifier::external_body]
fn rsa_from_public_der(der: &Vec<u8>) -> (r: Result<Rsa<Public>, ErrorStack>) {
    Rsa::public_key_from_der(der)
}

/// Relies on `RsaRef::public_encrypt` with PKCS#1 padding, into a buffer of the
/// key's size. It panics on an input over `i32::MAX` bytes, which `requires`
/// leaves out.
#[verifier::external_body]
fn rsa_public_encrypt<T: HasPublic>(rsa: &Rsa<T>, from: &[u8]) -> (r: Result<Vec<u8>, ErrorStack>)
    requires
        from@.len() <= MAX_RSA_INPUT,
{
    let mut buf: Vec<u8> = vec![0; rsa.size() as usize];
    let n = rsa.public_encrypt(from, &mut buf, openssl::rsa::Padding::PKCS1)?;
    buf.truncate(n);
    Ok(buf)
}

/// Relies on `RsaRef::public_decrypt` with PKCS#1 padding, into a buffer of the
/// key's size, of which the bytes written are kept. It panics on an input over
/// `i32::MAX` bytes, which `requires` leaves out.
#[verifier::external_body]
fn rsa_public_decrypt<T: HasPublic>(rsa: &Rsa<T>, from: &[u8]) -> (r: Result<Vec<u8>, ErrorStack>)
    requires
        from@.len() <= MAX_RSA_INPUT,
{
    let mut buf: Vec<u8> = vec![0; rsa.size() as usize];
    let n = rsa.public_decrypt(from, &mut buf, openssl::rsa::Padding::PKCS1)?;
    buf.truncate(n);
    Ok(buf)
}

/// Relies on `RsaRef::private_encrypt` with PKCS#1 padding, into a buffer of the
/// key's size. It panics on an input over `i32::MAX` bytes, which `requires`
/// leaves out.
#[verifier::external_body]
fn rsa_private_encrypt<T: HasPrivate>(rsa: &Rsa<T>, from: &[u8]) -> (r: Result<Vec<u8>, ErrorStack>)
    requires
        from@.len() <= MAX_RSA_INPUT,
{
    let mut buf: Vec<u8> = vec![0; rsa.size() as usize];
    let n = rsa.private_encrypt(from, &mut buf, openssl::rsa::Padding::PKCS1)?;
    buf.truncate(n);
    Ok(buf)
}

/// Relies on `RsaRef::private_decrypt` with PKCS#1 padding, into a buffer of the
/// key's size, of which the bytes written are kept. It panics on an input over
/// `i32::MAX` bytes, which `requires` leaves out.
#[verifier::external_body]
fn rsa_private_decrypt<T: HasPrivate>(rsa: &Rsa<T>, from: &[u8]) -> (r: Result<Vec<u8>, ErrorStack>)
    requires
        from@.len() <= MAX_RSA_INPUT,
{
    let mut buf: Vec<u8> = vec![0; rsa.size() as usize];
    let n = rsa.private_decrypt(from, &mut buf, openssl::rsa::Padding::PKCS1)?;
    buf.truncate(n);
    Ok(buf)
}

/// Relies on `RsaRef::private_key_to_pem`, the PEM text of the private key.
#[verifier::external_body]
fn rsa_private_pem(rsa: &Rsa<Private>) -> (r: Result<Vec<u8>, ErrorStack>) {
    rsa.private_key_to_pem()
}

/// Relies on `RsaRef::public_key_to_pem`, the PEM text of the public key.
#[verifier::external_body]
fn rsa_public_pem(rsa: &Rsa<Private>) -> (r: Result<Vec<u8>, ErrorStack>) {
    rsa.public_key_to_pem()
}

/// Relies on `Rsa::private_key_from_pem`, which reads a PEM-encoded private key.
/// Its memory buffer panics on a text over `i32::MAX` bytes, which `requires`
/// leaves out.
#[verifier::external_body]
fn rsa_from_private_pem(pem: &Vec<u8>) -> (r: Result<Rsa<Private>, ErrorStack>)
    requires
        pem@.len() <= MAX_RSA_INPUT,
{
    Rsa::private_key_from_pem(pem)
}

/// Relies on `base64::encode`: the standard base64 text of the bytes.
#[verifier::external_body]
fn to_base64(bytes: &Vec<u8>) -> (r: String)
    ensures
        r@ == base64_of(bytes@),
{
    base64::encode(bytes)
}

/// Relies on `base64::decode`, which reads standard base64 text.
#[verifier::external_body]
fn decode_base64(text: &str) -> (r: Result<Vec<u8>, DecodeError>) {
    base64::decode(text)
}

/// An RSA result with its error mapped to the library's.
fn crypto<T>(r: Result<T, ErrorStack>) -> (out: Result<T, AetherError>)
    ensures
        r matches Ok(v) ==> out == Ok::<T, AetherError>(v),
        r is Err ==> out == Err::<T, AetherError>(AetherError::Crypto),
{
    match r {
        Ok(v) => Ok(v),
        Err(_) => Err(AetherError::Crypto),
    }
}

/// One's own identity: an RSA key pair.
#[derive(Debug, Clone)]
pub struct Id {
    rsa: Rsa<Private>,
}

/// A peer's identity: an RSA public key.
#[derive(Debug)]
pub struct PublicId {
    rsa: Rsa<Public>,
}

impl Id {
    /// A fresh identity.
    pub fn new() -> (r: Result<Id, AetherError>)
        ensures
            r is Err ==> r == Err::<Id, AetherError>(AetherError::Crypto),
    {
        let rsa = crypto(rsa_generate(RSA_SIZE))?;
        Ok(Id { rsa })
    }

    /// The identity whose private key is in the given PEM text.
    pub fn from_private_pem(pem: &Vec<u8>) -> (r: Result<Id, AetherError>)
        ensures
            r is Err ==> r == Err::<Id, AetherError>(AetherError::Crypto),
            pem@.len() > MAX_RSA_INPUT ==> r is Err,
    {
        if pem.len() > MAX_RSA_INPUT {
            return Err(AetherError::Crypto);
        }
        let rsa = crypto(rsa_from_private_pem(pem))?;
        Ok(Id { rsa })
    }

    /// The PEM text of the private key.
    pub fn private_key_to_pem(&self) -> (r: Result<Vec<u8>, AetherError>)
        ensures
            r is Err ==> r == Err::<Vec<u8>, AetherError>(AetherError::Crypto),
    {
        crypto(rsa_private_pem(&self.rsa))
    }

    /// The PEM text of the public key.
    pub fn public_key_to_pem(&self) -> (r: Result<Vec<u8>, AetherError>)
        ensures
            r is Err ==> r == Err::<Vec<u8>, AetherError>(AetherError::Crypto),
    {
        crypto(rsa_public_pem(&self.rsa))
    }

    /// The uid: the base64 text of the DER encoding of the public key.
    pub fn public_key_to_base64(&self) -> (r: Result<String, AetherError>)
        ensures
            r is Err ==> r == Err::<String, AetherError>(AetherError::Crypto),
            r matches Ok(s) ==> exists|der: Seq<u8>| #[trigger] base64_of(der) == s@,
    {
        let der = crypto(rsa_public_der(&self.rsa))?;
        Ok(to_base64(&der))
    }

    /// The base64 text of the DER encoding of the private key.
    pub fn private_key_to_base64(&self) -> (r: Result<String, AetherError>)
        ensures
            r is Err ==> r == Err::<String, AetherError>(AetherError::Crypto),
            r matches Ok(s) ==> exists|der: Seq<u8>| #[trigger] base64_of(der) == s@,
    {
        let der = crypto(rsa_private_der(&self.rsa))?;
        Ok(to_base64(&der))
    }

    /// Encrypt with the public key.
    pub fn public_encrypt(&self, from: &[u8]) -> (r: Result<Vec<u8>, AetherError>)
        requires
            from@.len() <= MAX_RSA_INPUT,
        ensures
            r is Err ==> r == Err::<Vec<u8>, AetherError>(AetherError::Crypto),
    {
        crypto(rsa_public_encrypt(&self.rsa, from))
    }

    /// Encrypt with the private key (a signature).
    pub fn private_encrypt(&self, from: &[u8]) -> (r: Result<Vec<u8>, AetherError>)
        requires
            from@.len() <= MAX_RSA_INPUT,
        ensures
            r is Err ==> r == Err::<Vec<u8>, AetherError>(AetherError::Crypto),
    {
        crypto(rsa_private_encrypt(&self.rsa, from))
    }

    /// Decrypt with the public key.
    pub fn public_decrypt(&self, from: &[u8]) -> (r: Result<Vec<u8>, AetherError>)
        requires
            from@.len() <= MAX_RSA_INPUT,
        ensures
            r is Err ==> r == Err::<Vec<u8>, AetherError>(AetherError::Crypto),
    {
        crypto(rsa_public_decrypt(&self.rsa, from))
    }

    /// Decrypt with the private key.
    pub fn private_decrypt(&self, from: &[u8]) -> (r: Result<Vec<u8>, AetherError>)
        requires
            from@.len() <= MAX_RSA_INPUT,
        ensures
            r is Err ==> r == Err::<Vec<u8>, AetherError>(AetherError::Crypto),
    {
        crypto(rsa_private_decrypt(&self.rsa, from))
    }
}

impl PublicId {
    /// Read a peer's identity from its uid. Text that is not base64 gives
    /// `Base64Decode`; bytes that are no DER public key give `Crypto`.
    pub fn from_base64(key: &str) -> (r: Result<PublicId, AetherError>)
        ensures
            r is Err ==> r == Err::<PublicId, AetherError>(AetherError::Base64Decode) || r == Err::<
                PublicId,
                AetherError,
            >(AetherError::Crypto),
    {
        let bytes = match decode_base64(key) {
            Ok(b) => b,
            Err(_) => {
                return Err(AetherError::Base64Decode);
            },
        };
        let rsa = crypto(rsa_from_public_der(&bytes))?;
        Ok(PublicId { rsa })
    }

    /// The uid: the base64 text of the DER encoding of the public key.
    pub fn public_key_to_base64(&self) -> (r: Result<String, AetherError>)
        ensures
            r is Err ==> r == Err::<String, AetherError>(AetherError::Crypto),
            r matches Ok(s) ==> exists|der: Seq<u8>| #[trigger] base64_of(der) == s@,
    {
        let der = crypto(rsa_public_der(&self.rsa))?;
        Ok(to_base64(&der))
    }

    /// Encrypt with the public key.
    pub fn public_encrypt(&self, from: &[u8]) -> (r: Result<Vec<u8>, AetherError>)
        requires
            from@.len() <= MAX_RSA_INPUT,
        ensures
            r is Err ==> r == Err::<Vec<u8>, AetherError>(AetherError::Crypto),
    {
        crypto(rsa_public_encrypt(&self.rsa, from))
    }

    /// Decrypt with the public key (check a signature).
    pub fn public_decrypt(&self, from: &[u8]) -> (r: Result<Vec<u8>, AetherError>)
        requires
            from@.len() <= MAX_RSA_INPUT,
        ensures
            r is Err ==> r == Err::<Vec<u8>, AetherError>(AetherError::Crypto),
    {
        crypto(rsa_public_decrypt(&self.rsa, from))
    }
}

} // verus!
