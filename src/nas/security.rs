//! NAS ciphering and integrity. Every algorithm is the identity
//! transform (ciphering) or a zero MAC (integrity) until the algorithms
//! are wired in.

use vstd::prelude::*;
use bytes::Bytes;
use crate::bytes_buf::{bytes_contents, bytes_copy_from_slice};
use crate::security::SecurityError;

verus! {

#[derive(Debug, Clone, Copy, PartialEq, Eq, Structural)]
pub enum CipheringAlgorithm {
    NEA0,
    NEA1,
    NEA2,
    NEA3,
}

#[derive(Debug, Clone, Copy, PartialEq, Eq, Structural)]
pub enum IntegrityAlgorithm {
    NIA0,
    NIA1,
    NIA2,
    NIA3,
}

/// A MAC of four zero octets.
pub open spec fn zero_mac() -> Seq<u8> {
    seq![0u8, 0u8, 0u8, 0u8]
}

pub fn encrypt_nas_message(
    key: &[u8],
    count: u32,
    bearer: u8,
    direction: u8,
    plaintext: &[u8],
    algorithm: CipheringAlgorithm,
) -> (r: Result<Bytes, SecurityError>)
    ensures
        r matches Ok(c) && bytes_contents(c) == plaintext@,
{
    match algorithm {
        CipheringAlgorithm::NEA0 => Ok(bytes_copy_from_slice(plaintext)),
        CipheringAlgorithm::NEA1 => encrypt_nea1(key, count, bearer, direction, plaintext),
        CipheringAlgorithm::NEA2 => encrypt_nea2(key, count, bearer, direction, plaintext),
        CipheringAlgorithm::NEA3 => encrypt_nea3(key, count, bearer, direction, plaintext),
    }
}

pub fn decrypt_nas_message(
    key: &[u8],
    count: u32,
    bearer: u8,
    direction: u8,
    ciphertext: &[u8],
    algorithm: CipheringAlgorithm,
) -> (r: Result<Bytes, SecurityError>)
    ensures
        r matches Ok(p) && bytes_contents(p) == ciphertext@,
{
    match algorithm {
        CipheringAlgorithm::NEA0 => Ok(bytes_copy_from_slice(ciphertext)),
        CipheringAlgorithm::NEA1 => decrypt_nea1(key, count, bearer, direction, ciphertext),
        CipheringAlgorithm::NEA2 => decrypt_nea2(key, count, bearer, direction, ciphertext),
        CipheringAlgorithm::NEA3 => decrypt_nea3(key, count, bearer, direction, ciphertext),
    }
}

pub fn calculate_nas_mac(
    key: &[u8],
    count: u32,
    bearer: u8,
    direction: u8,
    message: &[u8],
    algorithm: IntegrityAlgorithm,
) -> (r: Result<Vec<u8>, SecurityError>)
    ensures
        r matches Ok(mac) && mac@ == zero_mac(),
{
    match algorithm {
        IntegrityAlgorithm::NIA0 => {
            let mac = vec![0u8; 4];
            assert(mac@ =~= zero_mac());
            Ok(mac)
        },
        IntegrityAlgorithm::NIA1 => calculate_nia1(key, count, bearer, direction, message),
        IntegrityAlgorithm::NIA2 => calculate_nia2(key, count, bearer, direction, message),
        IntegrityAlgorithm::NIA3 => calculate_nia3(key, count, bearer, direction, message),
    }
}

fn encrypt_nea1(_key: &[u8], _count: u32, _bearer: u8, _direction: u8, plaintext: &[u8]) -> (r: Result<Bytes, SecurityError>)
    ensures
        r matches Ok(c) && bytes_contents(c) == plaintext@,
{
    Ok(bytes_copy_from_slice(plaintext))
}

fn decrypt_nea1(_key: &[u8], _count: u32, _bearer: u8, _direction: u8, ciphertext: &[u8]) -> (r: Result<Bytes, SecurityError>)
    ensures
        r matches Ok(p) && bytes_contents(p) == ciphertext@,
{
    Ok(bytes_copy_from_slice(ciphertext))
}

fn encrypt_nea2(_key: &[u8], _count: u32, _bearer: u8, _direction: u8, plaintext: &[u8]) -> (r: Result<Bytes, SecurityError>)
    ensures
        r matches Ok(c) && bytes_contents(c) == plaintext@,
{
    Ok(bytes_copy_from_slice(plaintext))
}

fn decrypt_nea2(_key: &[u8], _count: u32, _bearer: u8, _direction: u8, ciphertext: &[u8]) -> (r: Result<Bytes, SecurityError>)
    ensures
        r matches Ok(p) && bytes_contents(p) == ciphertext@,
{
    Ok(bytes_copy_from_slice(ciphertext))
}

fn encrypt_nea3(_key: &[u8], _count: u32, _bearer: u8, _direction: u8, plaintext: &[u8]) -> (r: Result<Bytes, SecurityError>)
    ensures
        r matches Ok(c) && bytes_contents(c) == plaintext@,
{
    Ok(bytes_copy_from_slice(plaintext))
}

fn decrypt_nea3(_key: &[u8], _count: u32, _bearer: u8, _direction: u8, ciphertext: &[u8]) -> (r: Result<Bytes, SecurityError>)
    ensures
        r matches Ok(p) && bytes_contents(p) == ciphertext@,
{
    Ok(bytes_copy_from_slice(ciphertext))
}

fn calculate_nia1(_key: &[u8], _count: u32, _bearer: u8, _direction: u8, _message: &[u8]) -> (r: Result<Vec<u8>, SecurityError>)
    ensures
        r matches Ok(mac) && mac@ == zero_mac(),
{
    let mac = vec![0u8; 4];
    assert(mac@ =~= zero_mac());
    Ok(mac)
}

fn calculate_nia2(_key: &[u8], _count: u32, _bearer: u8, _direction: u8, _message: &[u8]) -> (r: Result<Vec<u8>, SecurityError>)
    ensures
        r matches Ok(mac) && mac@ == zero_mac(),
{
    let mac = vec![0u8; 4];
    assert(mac@ =~= zero_mac());
    Ok(mac)
}

fn calculate_nia3(_key: &[u8], _count: u32, _bearer: u8, _direction: u8, _message: &[u8]) -> (r: Result<Vec<u8>, SecurityError>)
    ensures
        r matches Ok(mac) && mac@ == zero_mac(),
{
    let mac = vec![0u8; 4];
    assert(mac@ =~= zero_mac());
    Ok(mac)
}

} // verus!
