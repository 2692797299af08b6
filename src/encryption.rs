//! Authenticated encryption of payloads (AES-256-GCM) and its framing on the wire.
//!
//! An encrypted payload travels as `tag || iv || cipher text`, with a 16-byte
//! tag, a fresh 16-byte IV per message and no associated data.
use openssl::error::ErrorStack;
use vstd::prelude::*;

use crate::error::AetherError;
use crate::packet::{Packet, PacketFlags, PacketModel};
use crate::util::{gen_nonce, xor};

verus! {

/// The length of an initialisation vector.
pub const IV_SIZE: usize = 16;

/// The length of a symmetric key.
pub const KEY_SIZE: usize = 32;

/// The length of an authentication tag.
pub const TAG_SIZE: usize = 16;

/// The longest text that the cipher accepts.
pub const MAX_CIPHER_INPUT: usize = 0x7fff_ffff;

#[verifier::external_type_specification]
#[verifier::external_body]
pub struct ExErrorStack(ErrorStack);

/// The cipher text and the tag that AES-256-GCM produces for `plain` under
/// `key` and `iv`, with no associated data.
pub uninterp spec fn aes_gcm_seal(key: Seq<u8>, iv: Seq<u8>, plain: Seq<u8>) -> (Seq<u8>, Seq<u8>);

/// The plain text that AES-256-GCM recovers from `data` and `tag` under `key`
/// and `iv`, with no associated data, where the tag matches.
pub uninterp spec fn aes_gcm_open(key: Seq<u8>, iv: Seq<u8>, data: Seq<u8>, tag: Seq<u8>) -> Seq<u8>;

/// Whether `encrypt_aead` with AES-256-GCM and no associated data succeeds on
/// `plain` under `key` and `iv`.
pub uninterp spec fn aes_gcm_seal_ok(key: Seq<u8>, iv: Seq<u8>, plain: Seq<u8>) -> bool;

/// Whether `decrypt_aead` with AES-256-GCM and no associated data accepts
/// `data` and `tag` under `key` and `iv`: the tag authenticates the data.
pub uninterp spec fn aes_gcm_accepts(key: Seq<u8>, iv: Seq<u8>, data: Seq<u8>, tag: Seq<u8>) -> bool;

/// The SHA-256 digest of `data`.
pub uninterp spec fn sha256_of(data: Seq<u8>) -> Seq<u8>;

/// Relies on `openssl::symm::encrypt_aead` with `Cipher::aes_256_gcm()`: it
/// returns the cipher text and writes the tag into the given 16-byte buffer.
/// It panics on a key or IV shorter than the cipher's, and on a plain text
/// longer than `i32::MAX` bytes, which `requires` leaves out.
#[verifier::external_body]
fn seal(key: &Vec<u8>, iv: &Vec<u8>, plain: &Vec<u8>, tag: &mut Vec<u8>) -> (r: Result<
    Vec<u8>,
    ErrorStack,
>)
    requires
        key@.len() == KEY_SIZE,
        iv@.len() == IV_SIZE,
        old(tag)@.len() == TAG_SIZE,
        plain@.len() <= MAX_CIPHER_INPUT,
    ensures
        final(tag)@.len() == TAG_SIZE,
        r is Ok == aes_gcm_seal_ok(key@, iv@, plain@),
        r matches Ok(c) ==> c@ == aes_gcm_seal(key@, iv@, plain@).0 && final(tag)@ == aes_gcm_seal(
            key@,
            iv@,
            plain@,
        ).1,
{
    openssl::symm::encrypt_aead(
        openssl::symm::Cipher::aes_256_gcm(),
        key,
        Some(iv),
        &[],
        plain,
        tag,
    )
}

/// Relies on `openssl::symm::decrypt_aead` with `Cipher::aes_256_gcm()`: it
/// returns the plain text where the tag authenticates the cipher text, and an
/// error otherwise. It panics on a key or IV shorter than the cipher's, and on
/// a cipher text longer than `i32::MAX` bytes, which `requires` leaves out.
#[verifier::external_body]
fn open(key: &Vec<u8>, iv: &Vec<u8>, data: &Vec<u8>, tag: &Vec<u8>) -> (r: Result<Vec<u8>, ErrorStack>)
    requires
        key@.len() == KEY_SIZE,
        iv@.len() == IV_SIZE,
        tag@.len() == TAG_SIZE,
        data@.len() <= MAX_CIPHER_INPUT,
    ensures
        r is Ok == aes_gcm_accepts(key@, iv@, data@, tag@),
        r matches Ok(p) ==> p@ == aes_gcm_open(key@, iv@, data@, tag@),
{
    openssl::symm::decrypt_aead(
        openssl::symm::Cipher::aes_256_gcm(),
        key,
        Some(iv),
        &[],
        data,
        tag,
    )
}

/// Relies on `openssl::sha::sha256`, which returns the 32-byte digest.
#[verifier::external_body]
fn digest(data: &Vec<u8>) -> (r: Vec<u8>)
    ensures
        r@ == sha256_of(data@),
        r@.len() == KEY_SIZE,
{
    openssl::sha::sha256(data).to_vec()
}

/// An encrypted payload with the data needed to decrypt it.
#[derive(Debug)]
pub struct Encrypted {
    pub crypto_text: Vec<u8>,
    pub tag: Vec<u8>,
    pub iv: Vec<u8>,
    /// Associated data; always empty on the wire.
    pub aad: Vec<u8>,
}

/// The wire form of an encrypted payload.
pub open spec fn frame(tag: Seq<u8>, iv: Seq<u8>, text: Seq<u8>) -> Seq<u8> {
    tag + iv + text
}

/// Append all of `src` to `dst`.
fn extend(dst: &mut Vec<u8>, src: &Vec<u8>)
    ensures
        final(dst)@ == old(dst)@ + src@,
{
    let mut i: usize = 0;
    while i < src.len()
        invariant
            0 <= i <= src@.len(),
            dst@ == old(dst)@ + src@.subrange(0, i as int),
        decreases src@.len() - i,
    {
        dst.push(src[i]);
        i += 1;
        assert(dst@ =~= old(dst)@ + src@.subrange(0, i as int));
    }
    assert(src@.subrange(0, src@.len() as int) =~= src@);
}

/// The bytes `from..to` of `src`.
fn slice_of(src: &Vec<u8>, from: usize, to: usize) -> (r: Vec<u8>)
    requires
        from <= to <= src@.len(),
    ensures
        r@ == src@.subrange(from as int, to as int),
{
    let mut r: Vec<u8> = Vec::new();
    let mut i: usize = from;
    while i < to
        invariant
            from <= i <= to,
            to <= src@.len(),
            r@ == src@.subrange(from as int, i as int),
        decreases to - i,
    {
        r.push(src[i]);
        i += 1;
        assert(r@ =~= src@.subrange(from as int, i as int));
    }
    r
}

impl Encrypted {
    /// The wire form: `tag || iv || crypto_text`.
    pub fn to_bytes(&self) -> (r: Vec<u8>)
        ensures
            r@ == frame(self.tag@, self.iv@, self.crypto_text@),
    {
        let mut result: Vec<u8> = Vec::new();
        extend(&mut result, &self.tag);
        extend(&mut result, &self.iv);
        extend(&mut result, &self.crypto_text);
        result
    }

    /// Read the wire form; bytes too short for a tag and an IV are refused
    /// with `DecryptFailed`.
    pub fn from_bytes(bytes: Vec<u8>) -> (r: Result<Encrypted, AetherError>)
        ensures
            r is Ok <==> bytes@.len() >= TAG_SIZE + IV_SIZE,
            r is Err ==> r == Err::<Encrypted, AetherError>(AetherError::DecryptFailed),
            r matches Ok(e) ==> {
                &&& e.tag@ == bytes@.subrange(0, TAG_SIZE as int)
                &&& e.iv@ == bytes@.subrange(TAG_SIZE as int, (TAG_SIZE + IV_SIZE) as int)
                &&& e.crypto_text@ == bytes@.subrange(
                    (TAG_SIZE + IV_SIZE) as int,
                    bytes@.len() as int,
                )
                &&& e.aad@.len() == 0
            },
    {
        let len = bytes.len();
        if len < TAG_SIZE + IV_SIZE {
            return Err(AetherError::DecryptFailed);
        }
        Ok(
            Encrypted {
                tag: slice_of(&bytes, 0, TAG_SIZE),
                iv: slice_of(&bytes, TAG_SIZE, TAG_SIZE + IV_SIZE),
                crypto_text: slice_of(&bytes, TAG_SIZE + IV_SIZE, len),
                aad: Vec::new(),
            },
        )
    }
}

/// Reading the wire form of an encrypted payload gives back its tag, IV and
/// cipher text.
pub proof fn lemma_frame_round_trip(tag: Seq<u8>, iv: Seq<u8>, text: Seq<u8>)
    requires
        tag.len() == TAG_SIZE,
        iv.len() == IV_SIZE,
    ensures
        ({
            let b = frame(tag, iv, text);
            &&& b.len() >= TAG_SIZE + IV_SIZE
            &&& b.subrange(0, TAG_SIZE as int) == tag
            &&& b.subrange(TAG_SIZE as int, (TAG_SIZE + IV_SIZE) as int) == iv
            &&& b.subrange((TAG_SIZE + IV_SIZE) as int, b.len() as int) == text
        }),
{
    let b = frame(tag, iv, text);
    assert(b.subrange(0, TAG_SIZE as int) =~= tag);
    assert(b.subrange(TAG_SIZE as int, (TAG_SIZE + IV_SIZE) as int) =~= iv);
    assert(b.subrange((TAG_SIZE + IV_SIZE) as int, b.len() as int) =~= text);
}

/// Both sides of a key exchange derive the same key: combining the own and the
/// peer's contribution gives the same secret in either order.
pub proof fn lemma_shared_key_agrees(own: Seq<u8>, peer: Seq<u8>)
    ensures
        sha256_of(xor_of(own, peer)) == sha256_of(xor_of(peer, own)),
{
    assert forall|i: int| 0 <= i < xor_of(own, peer).len() implies #[trigger] xor_of(own, peer)[i]
        == xor_of(peer, own)[i] by {
        crate::util::lemma_xor_commutes(own, peer, i);
    }
    assert(xor_of(own, peer) =~= xor_of(peer, own));
}

/// `sealed` is `plain` with its payload encrypted under `key` and `iv`, framed,
/// and the `enc` flag set.
pub open spec fn sealed_as(sealed: PacketModel, plain: PacketModel, key: Seq<u8>, iv: Seq<u8>) -> bool {
    &&& iv.len() == IV_SIZE
    &&& sealed == PacketModel {
        flags: PacketFlags { enc: true, ..plain.flags },
        payload: frame(
            aes_gcm_seal(key, iv, plain.payload).1,
            iv,
            aes_gcm_seal(key, iv, plain.payload).0,
        ),
        ..plain
    }
}

/// The symmetric state of an encrypted link.
pub struct AetherCipher {
    key: Vec<u8>,
}

/// The byte-wise exclusive or of two byte strings, as long as the shorter one.
pub open spec fn xor_of(a: Seq<u8>, b: Seq<u8>) -> Seq<u8> {
    Seq::new(if a.len() <= b.len() { a.len() } else { b.len() }, |i: int| a[i] ^ b[i])
}

impl AetherCipher {
    /// The symmetric key.
    pub closed spec fn key(&self) -> Seq<u8> {
        self.key@
    }

    /// The internal invariant: the key has the cipher's length.
    pub closed spec fn wf(&self) -> bool {
        self.key@.len() == KEY_SIZE
    }

    /// A cipher with a fresh random key.
    pub fn new() -> (r: AetherCipher)
        ensures
            r.wf(),
    {
        AetherCipher { key: gen_nonce(KEY_SIZE) }
    }

    /// The cipher whose key is the SHA-256 digest of a shared secret.
    pub fn from_secret(secret: &Vec<u8>) -> (r: AetherCipher)
        ensures
            r.wf(),
            r.key() == sha256_of(secret@),
    {
        AetherCipher { key: digest(secret) }
    }

    /// The cipher of a key exchange: the shared secret is the exclusive or of
    /// both sides' contributions.
    pub fn from_contributions(own: Vec<u8>, peer: Vec<u8>) -> (r: AetherCipher)
        ensures
            r.wf(),
            r.key() == sha256_of(xor_of(own@, peer@)),
    {
        let ghost (a, b) = (own@, peer@);
        let secret = xor(own, peer);
        assert(secret@ =~= xor_of(a, b));
        AetherCipher::from_secret(&secret)
    }

    /// Encrypt under a fresh random IV.
    pub fn encrypt_bytes(&self, plain_text: Vec<u8>) -> (r: Result<Encrypted, AetherError>)
        requires
            self.wf(),
        ensures
            r is Err ==> r == Err::<Encrypted, AetherError>(AetherError::Crypto),
            r is Err ==> plain_text@.len() > MAX_CIPHER_INPUT || exists|iv: Seq<u8>|
                iv.len() == IV_SIZE && !#[trigger] aes_gcm_seal_ok(self.key(), iv, plain_text@),
            r matches Ok(e) ==> {
                &&& e.iv@.len() == IV_SIZE
                &&& e.crypto_text@ == aes_gcm_seal(self.key(), e.iv@, plain_text@).0
                &&& e.tag@ == aes_gcm_seal(self.key(), e.iv@, plain_text@).1
                &&& e.tag@.len() == TAG_SIZE
                &&& e.aad@.len() == 0
            },
    {
        if plain_text.len() > MAX_CIPHER_INPUT {
            return Err(AetherError::Crypto);
        }
        let iv = gen_nonce(IV_SIZE);
        let mut tag = gen_nonce(TAG_SIZE);
        match seal(&self.key, &iv, &plain_text, &mut tag) {
            Ok(crypto_text) => Ok(Encrypted { crypto_text, tag, iv, aad: Vec::new() }),
            Err(_) => {
                assert(iv@.len() == IV_SIZE && !aes_gcm_seal_ok(self.key(), iv@, plain_text@));
                Err(AetherError::Crypto)
            },
        }
    }

    /// Decrypt and authenticate; a wrong tag, an IV or tag of the wrong length,
    /// or a cipher text over `MAX_CIPHER_INPUT` bytes gives `DecryptFailed`.
    pub fn decrypt_bytes(&self, crypto_text: Encrypted) -> (r: Result<Vec<u8>, AetherError>)
        requires
            self.wf(),
        ensures
            r is Err ==> r == Err::<Vec<u8>, AetherError>(AetherError::DecryptFailed),
            r is Ok == (crypto_text.iv@.len() == IV_SIZE && crypto_text.tag@.len() == TAG_SIZE
                && crypto_text.crypto_text@.len() <= MAX_CIPHER_INPUT && aes_gcm_accepts(
                self.key(),
                crypto_text.iv@,
                crypto_text.crypto_text@,
                crypto_text.tag@,
            )),
            r matches Ok(p) ==> p@ == aes_gcm_open(
                self.key(),
                crypto_text.iv@,
                crypto_text.crypto_text@,
                crypto_text.tag@,
            ),
    {
        if crypto_text.iv.len() != IV_SIZE || crypto_text.tag.len() != TAG_SIZE
            || crypto_text.crypto_text.len() > MAX_CIPHER_INPUT {
            return Err(AetherError::DecryptFailed);
        }
        match open(&self.key, &crypto_text.iv, &crypto_text.crypto_text, &crypto_text.tag) {
            Ok(p) => Ok(p),
            Err(_) => Err(AetherError::DecryptFailed),
        }
    }

    /// Replace a packet's payload by its encrypted wire form and set `enc`.
    pub fn encrypt_packet(&self, packet: &mut Packet) -> (r: Result<(), AetherError>)
        requires
            self.wf(),
        ensures
            r is Err ==> r == Err::<(), AetherError>(AetherError::Crypto) && *final(packet)
                == *old(packet),
            r is Err ==> old(packet)@.payload.len() > MAX_CIPHER_INPUT || exists|iv: Seq<u8>|
                iv.len() == IV_SIZE && !#[trigger] aes_gcm_seal_ok(
                    self.key(),
                    iv,
                    old(packet)@.payload,
                ),
            r is Ok ==> exists|iv: Seq<u8>| #[trigger]
                sealed_as(final(packet)@, old(packet)@, self.key(), iv),
    {
        let plain = slice_of(&packet.payload, 0, packet.payload.len());
        assert(plain@ =~= packet.payload@);
        match self.encrypt_bytes(plain) {
            Ok(e) => {
                let ghost iv = e.iv@;
                packet.payload = e.to_bytes();
                packet.set_enc(true);
                assert(sealed_as(packet@, old(packet)@, self.key(), iv));
                Ok(())
            },
            Err(err) => Err(err),
        }
    }

    /// Replace an encrypted packet's payload by its plain text and clear `enc`.
    /// A payload that does not decrypt gives `DecryptFailed`.
    pub fn decrypt_packet(&self, packet: Packet) -> (r: Result<Packet, AetherError>)
        requires
            self.wf(),
        ensures
            r is Err ==> r == Err::<Packet, AetherError>(AetherError::DecryptFailed),
            r is Ok == ({
                let b = packet@.payload;
                &&& b.len() >= TAG_SIZE + IV_SIZE
                &&& b.len() - (TAG_SIZE + IV_SIZE) <= MAX_CIPHER_INPUT
                &&& aes_gcm_accepts(
                    self.key(),
                    b.subrange(TAG_SIZE as int, (TAG_SIZE + IV_SIZE) as int),
                    b.subrange((TAG_SIZE + IV_SIZE) as int, b.len() as int),
                    b.subrange(0, TAG_SIZE as int),
                )
            }),
            r matches Ok(q) ==> {
                let b = packet@.payload;
                q@ == (PacketModel {
                    flags: PacketFlags { enc: false, ..packet@.flags },
                    payload: aes_gcm_open(
                        self.key(),
                        b.subrange(TAG_SIZE as int, (TAG_SIZE + IV_SIZE) as int),
                        b.subrange((TAG_SIZE + IV_SIZE) as int, b.len() as int),
                        b.subrange(0, TAG_SIZE as int),
                    ),
                    ..packet@
                })
            },
    {
        let mut packet = packet;
        let mut raw: Vec<u8> = Vec::new();
        std::mem::swap(&mut raw, &mut packet.payload);
        let encrypted = Encrypted::from_bytes(raw)?;
        let plain = self.decrypt_bytes(encrypted)?;
        packet.payload = plain;
        packet.set_enc(false);
        Ok(packet)
    }
}

} // verus!
