pub mod kdf;
pub mod crypto;

use vstd::prelude::*;

verus! {

/// Why a key could not be derived.
#[derive(Debug, Clone, Copy, PartialEq, Eq, Structural)]
pub enum SecurityError {
    InvalidKeyLength,
}

/// A key of 32 zero octets: what the key derivations give while the 5G
/// key hierarchy is not in place.
pub open spec fn zero_key() -> Seq<u8> {
    Seq::new(32, |i: int| 0u8)
}

pub fn derive_kamf(kseaf: &[u8], supi: &str, abba: &[u8]) -> (r: Result<Vec<u8>, SecurityError>)
    ensures
        r matches Ok(k) && k@ == zero_key(),
{
    let k = vec![0u8; 32];
    assert(k@ =~= zero_key());
    Ok(k)
}

pub fn derive_knas_enc(kamf: &[u8], algorithm_type: u8, algorithm_id: u8) -> (r: Result<Vec<u8>, SecurityError>)
    ensures
        r matches Ok(k) && k@ == zero_key(),
{
    let k = vec![0u8; 32];
    assert(k@ =~= zero_key());
    Ok(k)
}

pub fn derive_knas_int(kamf: &[u8], algorithm_type: u8, algorithm_id: u8) -> (r: Result<Vec<u8>, SecurityError>)
    ensures
        r matches Ok(k) && k@ == zero_key(),
{
    let k = vec![0u8; 32];
    assert(k@ =~= zero_key());
    Ok(k)
}

} // verus!
