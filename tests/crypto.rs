use aether_lib::encryption::{AetherCipher, Encrypted, IV_SIZE, TAG_SIZE};
use aether_lib::error::AetherError;
use aether_lib::identity::{Id, PublicId};
use aether_lib::packet::{PType, Packet};
use aether_lib::peer::authentication::{
    answer_challenge, challenge_timeout, check_response, make_challenge, unanswered,
};
use aether_lib::config::AetherConfig;
use aether_lib::util::gen_nonce;

#[test]
fn encryption_test() {
    let data = gen_nonce(512);

    let cipher = AetherCipher::new();

    let encrypted = cipher.encrypt_bytes(data.clone()).unwrap();

    let decrypted = cipher.decrypt_bytes(encrypted).unwrap();

    assert_eq!(data, decrypted);
}

#[test]
fn encoding_test() {
    let data = gen_nonce(512);

    let cipher = AetherCipher::new();

    let encrypted = cipher.encrypt_bytes(data.clone()).unwrap();

    // Encrypted data is converted to sequence of bytes and sent
    let encrypted_raw: Vec<u8> = encrypted.to_bytes();

    // Other end receives sequence of bytes as encrypted text
    let received = Encrypted::from_bytes(encrypted_raw).unwrap();

    let decrypted = cipher.decrypt_bytes(received).unwrap();

    assert_eq!(data, decrypted);
}

#[test]
fn framing_layout_and_truncation() {
    let e = Encrypted { crypto_text: vec![9, 9], tag: vec![1; TAG_SIZE], iv: vec![2; IV_SIZE], aad: Vec::new() };
    let bytes = e.to_bytes();
    assert_eq!(bytes.len(), TAG_SIZE + IV_SIZE + 2);
    assert_eq!(bytes[0], 1);
    assert_eq!(bytes[TAG_SIZE], 2);
    assert_eq!(&bytes[TAG_SIZE + IV_SIZE..], &[9, 9]);
    let back = Encrypted::from_bytes(bytes).unwrap();
    assert_eq!((back.tag, back.iv, back.crypto_text), (vec![1; TAG_SIZE], vec![2; IV_SIZE], vec![9, 9]));
    assert_eq!(Encrypted::from_bytes(vec![0; 31]).unwrap_err(), AetherError::DecryptFailed);
}

#[test]
fn tampering_fails_to_decrypt() {
    let cipher = AetherCipher::new();
    let mut e = cipher.encrypt_bytes(b"secret".to_vec()).unwrap();
    e.crypto_text[0] ^= 1;
    assert_eq!(cipher.decrypt_bytes(e).unwrap_err(), AetherError::DecryptFailed);
    let other = AetherCipher::new();
    let e = cipher.encrypt_bytes(b"secret".to_vec()).unwrap();
    assert_eq!(other.decrypt_bytes(e).unwrap_err(), AetherError::DecryptFailed);
}

#[test]
fn fresh_iv_per_message() {
    let cipher = AetherCipher::new();
    let a = cipher.encrypt_bytes(b"same".to_vec()).unwrap();
    let b = cipher.encrypt_bytes(b"same".to_vec()).unwrap();
    assert_ne!(a.iv, b.iv);
    assert_ne!(a.crypto_text, b"same".to_vec());
}

#[test]
fn key_exchange_contributions_agree() {
    let s1 = gen_nonce(32);
    let s2 = gen_nonce(32);
    let c1 = AetherCipher::from_contributions(s1.clone(), s2.clone());
    let c2 = AetherCipher::from_contributions(s2, s1);
    let e = c1.encrypt_bytes(b"hello".to_vec()).unwrap();
    assert_eq!(c2.decrypt_bytes(e).unwrap(), b"hello".to_vec());
}

#[test]
fn encrypted_round_trip_hides_payload() {
    let s1 = gen_nonce(32);
    let s2 = gen_nonce(32);
    let sender = AetherCipher::from_contributions(s1.clone(), s2.clone());
    let receiver = AetherCipher::from_contributions(s2, s1);
    let mut packet = Packet::new(PType::Data, 5);
    packet.append_payload(b"hello".to_vec());
    sender.encrypt_packet(&mut packet).unwrap();
    assert!(packet.flags.enc);
    let wire = packet.compile();
    let body = &wire[11..];
    assert!(!body.windows(5).any(|w| w == b"hello"));
    let received = Packet::parse(&wire).unwrap();
    let plain = receiver.decrypt_packet(received).unwrap();
    assert!(!plain.flags.enc);
    assert_eq!(plain.payload, b"hello".to_vec());
}

#[test]
fn encrypt_test() {
    let message = String::from("This is a small message");
    let message_bytes = message.as_bytes();
    let id = Id::new().unwrap();
    let message_encrypted = id.public_encrypt(message_bytes).unwrap();
    let message_decrypted = id.private_decrypt(&message_encrypted).unwrap();
    let message_out = String::from_utf8(message_decrypted).unwrap();

    assert_eq!(message, message_out);
}

#[test]
fn signature_test() {
    let alice_id = Id::new().unwrap();
    let alice_public = PublicId::from_base64(&alice_id.public_key_to_base64().unwrap()).unwrap();

    let alice_message = "A message to be signed";
    let alice_message_signed = alice_id.private_encrypt(alice_message.as_bytes()).unwrap();

    let bob_decrypted_bytes = alice_public.public_decrypt(&alice_message_signed).unwrap();

    let bob_message = String::from_utf8(bob_decrypted_bytes).unwrap();

    assert_eq!(alice_message, bob_message);
}

#[test]
fn authentication_test() {
    let alice_id = Id::new().unwrap();
    // Alice publishes her public key
    let alice_public = PublicId::from_base64(&alice_id.public_key_to_base64().unwrap()).unwrap();

    // bob generates a random 256 bit number
    let bob_nonce = gen_nonce(32);

    // bob encrypts nonce with alice's public key and sends to alice
    let bob_challenge = alice_public.public_encrypt(&bob_nonce).unwrap();

    // alice decrypts the nonce with her private key and sends to bob
    let alice_response = alice_id.private_decrypt(&bob_challenge).unwrap();

    // if bob receives the same random nonce, alice owns the private key corresponding to the
    // public key
    assert_eq!(bob_nonce, alice_response);
}

#[test]
fn uid_round_trip_and_bad_base64() {
    let id = Id::new().unwrap();
    let uid = id.public_key_to_base64().unwrap();
    let public = PublicId::from_base64(&uid).unwrap();
    assert_eq!(public.public_key_to_base64().unwrap(), uid);
    assert_eq!(PublicId::from_base64("not base64 !").unwrap_err(), AetherError::Base64Decode);
    assert_eq!(PublicId::from_base64("AAAA").unwrap_err(), AetherError::Crypto);
    let pem = id.private_key_to_pem().unwrap();
    let again = Id::from_private_pem(&pem).unwrap();
    assert_eq!(again.private_key_to_base64().unwrap(), id.private_key_to_base64().unwrap());
}

#[test]
fn challenge_answered_by_key_holder() {
    let id = Id::new().unwrap();
    let public = PublicId::from_base64(&id.public_key_to_base64().unwrap()).unwrap();
    let challenge = make_challenge(&public).unwrap();
    assert_eq!(challenge.nonce.len(), 32);
    let answer = answer_challenge(&id, &challenge.encrypted);
    assert_eq!(check_response(&challenge.nonce, &answer, "u".to_string()), Ok(()));
}

#[test]
fn challenge_refused_for_wrong_key() {
    let holder_of_u1 = Id::new().unwrap();
    let holder_of_u2 = Id::new().unwrap();
    let u1 = holder_of_u1.public_key_to_base64().unwrap();
    let claimed = PublicId::from_base64(&u1).unwrap();
    let challenge = make_challenge(&claimed).unwrap();
    let answer = answer_challenge(&holder_of_u2, &challenge.encrypted);
    assert_eq!(
        check_response(&challenge.nonce, &answer, u1.clone()),
        Err(AetherError::AuthenticationInvalid(u1))
    );
}

#[test]
fn unanswered_challenge_errors() {
    assert_eq!(
        unanswered(AetherError::RecvTimeout, "p".to_string()),
        AetherError::AuthenticationFailed("p".to_string())
    );
    assert_eq!(unanswered(AetherError::LinkStopped, "p".to_string()), AetherError::LinkStopped);
    let config = AetherConfig { delta_time: 0, ..AetherConfig::default() };
    assert_eq!(challenge_timeout(&config), 1_500);
    let config = AetherConfig::default();
    for _ in 0..50 {
        let t = challenge_timeout(&config);
        assert!(t >= 1_500 && t < 2_500);
    }
}
