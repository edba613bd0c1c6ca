//! The 3GPP key derivation function: HMAC-SHA-256 over an input string
//! built from a function code and length-prefixed parameters.

use vstd::prelude::*;
use hmac::{Hmac, Mac};
use sha2::Sha256;
use crate::security::SecurityError;

verus! {

/// The HMAC-SHA-256 tag of `message` under `key`.
pub uninterp spec fn hmac_sha256_of(key: Seq<u8>, message: Seq<u8>) -> Seq<u8>;

/// Relies on `hmac::Hmac<sha2::Sha256>` (`new_from_slice`, `update`,
/// `finalize`): the 32-octet HMAC-SHA-256 tag of the message under the
/// key. HMAC takes keys of any length: `new_from_slice` never refuses one.
#[verifier::external_body]
fn hmac_sha256(key: &[u8], message: &[u8]) -> (r: Option<Vec<u8>>)
    ensures
        r is Some,
        r matches Some(t) ==> t@ == hmac_sha256_of(key@, message@) && t@.len() == 32,
{
    match <Hmac<Sha256> as Mac>::new_from_slice(key) {
        Ok(mut mac) => {
            mac.update(message);
            Some(mac.finalize().into_bytes().to_vec())
        },
        Err(_) => None,
    }
}

pub fn kdf_hmac_sha256(key: &[u8], s: &[u8]) -> (r: Result<Vec<u8>, SecurityError>)
    ensures
        r matches Ok(t) && t@ == hmac_sha256_of(key@, s@) && t@.len() == 32,
{
    match hmac_sha256(key, s) {
        Some(t) => Ok(t),
        None => Err(SecurityError::InvalidKeyLength),
    }
}

/// The parameters of a KDF input: each as its two-octet big-endian length
/// field followed by its octets.
pub open spec fn kdf_params_octets(params: Seq<(&[u8], u16)>) -> Seq<u8>
    decreases params.len(),
{
    if params.len() == 0 {
        seq![]
    } else {
        kdf_params_octets(params.drop_last()) + seq![
            (params.last().1 / 256) as u8,
            (params.last().1 % 256) as u8,
        ] + params.last().0@
    }
}

/// The KDF input string: the function code, then the parameters.
pub open spec fn kdf_input(fc: u8, params: Seq<(&[u8], u16)>) -> Seq<u8> {
    seq![fc] + kdf_params_octets(params)
}

pub fn derive_key(key: &[u8], fc: u8, params: &[(&[u8], u16)]) -> (r: Result<Vec<u8>, SecurityError>)
    ensures
        r matches Ok(t) && t@ == hmac_sha256_of(key@, kdf_input(fc, params@)) && t@.len() == 32,
{
    let mut s: Vec<u8> = Vec::new();
    s.push(fc);
    let mut i: usize = 0;
    while i < params.len()
        invariant
            i <= params@.len(),
            s@ == seq![fc] + kdf_params_octets(params@.subrange(0, i as int)),
        decreases params@.len() - i,
    {
        let (param, length) = params[i];
        s.push((length / 256) as u8);
        s.push((length % 256) as u8);
        let mut p = vstd::slice::slice_to_vec(param);
        s.append(&mut p);
        assert(params@.subrange(0, i + 1).drop_last() =~= params@.subrange(0, i as int));
        assert(s@ =~= seq![fc] + kdf_params_octets(params@.subrange(0, i + 1)));
        i += 1;
    }
    assert(params@.subrange(0, i as int) =~= params@);
    kdf_hmac_sha256(key, s.as_slice())
}

} // verus!
