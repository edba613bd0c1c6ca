//! AES ciphering entry points; the transform is the identity until a
//! cipher is wired in.

use vstd::prelude::*;
use crate::security::SecurityError;

verus! {

pub fn aes_128_encrypt(key: &[u8], plaintext: &[u8]) -> (r: Result<Vec<u8>, SecurityError>)
    ensures
        r matches Ok(c) && c@ == plaintext@,
{
    Ok(vstd::slice::slice_to_vec(plaintext))
}

pub fn aes_128_decrypt(key: &[u8], ciphertext: &[u8]) -> (r: Result<Vec<u8>, SecurityError>)
    ensures
        r matches Ok(p) && p@ == ciphertext@,
{
    Ok(vstd::slice::slice_to_vec(ciphertext))
}

pub fn aes_256_encrypt(key: &[u8], plaintext: &[u8]) -> (r: Result<Vec<u8>, SecurityError>)
    ensures
        r matches Ok(c) && c@ == plaintext@,
{
    Ok(vstd::slice::slice_to_vec(plaintext))
}

pub fn aes_256_decrypt(key: &[u8], ciphertext: &[u8]) -> (r: Result<Vec<u8>, SecurityError>)
    ensures
        r matches Ok(p) && p@ == ciphertext@,
{
    Ok(vstd::slice::slice_to_vec(ciphertext))
}

} // verus!
