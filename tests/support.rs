use amf_ngap::nas::messages::NasMessageType;
use amf_ngap::nas::security::{calculate_nas_mac, encrypt_nas_message, decrypt_nas_message, CipheringAlgorithm, IntegrityAlgorithm};
use amf_ngap::security::crypto::{aes_128_decrypt, aes_128_encrypt, aes_256_decrypt, aes_256_encrypt};
use amf_ngap::security::kdf::{derive_key, kdf_hmac_sha256};
use amf_ngap::security::{derive_kamf, derive_knas_enc, derive_knas_int};
use amf_ngap::text::{hex_decode, parse_hex_number};
use amf_ngap::utils::timer::{t3502, t3510, t3512, t3560, t3565, Timer};
use std::time::Duration;

#[test]
fn hmac_sha256_known_vector() {
    let tag = kdf_hmac_sha256(b"Jefe", b"what do ya want for nothing?").unwrap();
    let expected = [
        0x5b, 0xdc, 0xc1, 0x46, 0xbf, 0x60, 0x75, 0x4e, 0x6a, 0x04, 0x24, 0x26, 0x08, 0x95, 0x75, 0xc7,
        0x5a, 0x00, 0x3f, 0x08, 0x9d, 0x27, 0x39, 0x83, 0x9d, 0xec, 0x58, 0xb9, 0x64, 0xec, 0x38, 0x43,
    ];
    assert_eq!(tag, expected.to_vec());
}

#[test]
fn derive_key_hashes_the_kdf_input() {
    let key = [0x11u8; 32];
    let p0: &[u8] = b"abc";
    let p1: &[u8] = &[0x01];
    let out = derive_key(&key, 0x6D, &[(p0, 3), (p1, 1)]).unwrap();
    let input = [0x6D, 0x00, 0x03, b'a', b'b', b'c', 0x00, 0x01, 0x01];
    assert_eq!(out, kdf_hmac_sha256(&key, &input).unwrap());
    assert_eq!(out.len(), 32);
}

#[test]
fn key_derivations_give_zero_keys() {
    assert_eq!(derive_kamf(&[1, 2], "imsi-1", &[0, 0]).unwrap(), vec![0u8; 32]);
    assert_eq!(derive_knas_enc(&[1], 1, 2).unwrap(), vec![0u8; 32]);
    assert_eq!(derive_knas_int(&[1], 2, 2).unwrap(), vec![0u8; 32]);
}

#[test]
fn aes_entry_points_pass_data_through() {
    assert_eq!(aes_128_encrypt(&[0; 16], b"data").unwrap(), b"data".to_vec());
    assert_eq!(aes_128_decrypt(&[0; 16], b"data").unwrap(), b"data".to_vec());
    assert_eq!(aes_256_encrypt(&[0; 32], b"xyz").unwrap(), b"xyz".to_vec());
    assert_eq!(aes_256_decrypt(&[0; 32], b"xyz").unwrap(), b"xyz".to_vec());
}

#[test]
fn nas_security_passes_data_through() {
    let c = encrypt_nas_message(&[0; 16], 1, 0, 1, &[1, 2, 3], CipheringAlgorithm::NEA2).unwrap();
    assert_eq!(&c[..], &[1, 2, 3]);
    let p = decrypt_nas_message(&[0; 16], 1, 0, 1, &[4, 5], CipheringAlgorithm::NEA0).unwrap();
    assert_eq!(&p[..], &[4, 5]);
    assert_eq!(calculate_nas_mac(&[0; 16], 1, 0, 1, &[9], IntegrityAlgorithm::NIA1).unwrap(), vec![0u8; 4]);
}

#[test]
fn hex_text_parsing() {
    assert_eq!(hex_decode("cafe"), Some(vec![0xCA, 0xFE]));
    assert_eq!(hex_decode("CaFe"), Some(vec![0xCA, 0xFE]));
    assert_eq!(hex_decode("caf"), None);
    assert_eq!(hex_decode("zz"), None);
    assert_eq!(parse_hex_number("3f8", 0x10000), Some(0x3F8));
    assert_eq!(parse_hex_number("+1F", 0x100), Some(0x1F));
    assert_eq!(parse_hex_number("100", 0x100), None);
    assert_eq!(parse_hex_number("", 0x100), None);
    assert_eq!(parse_hex_number("+", 0x100), None);
    assert_eq!(parse_hex_number("g1", 0x100), None);
}

#[test]
fn timers_run_for_their_seconds() {
    assert_eq!(t3502(720).duration(), Duration::from_secs(720));
    assert_eq!(t3510(15).duration(), Duration::from_secs(15));
    assert_eq!(t3512(3240).duration(), Duration::from_secs(3240));
    assert_eq!(t3560(6).duration(), Duration::from_secs(6));
    assert_eq!(t3565(6).duration(), Duration::from_secs(6));
    assert_eq!(Timer::new(Duration::from_millis(5)).duration(), Duration::from_millis(5));
}

#[test]
fn nas_message_type_codes() {
    assert_eq!(NasMessageType::RegistrationRequest.code(), 0x41);
    assert_eq!(NasMessageType::ServiceReject.code(), 0x4d);
    assert_eq!(NasMessageType::PduSessionReleaseComplete.code(), 0xd3);
}
