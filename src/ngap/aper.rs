//! Aligned-PER primitives: length determinants.

use vstd::prelude::*;
use crate::error::DecodeError;

verus! {

/// The aligned-PER length determinant at the start of `data`, as
/// `(length, octets consumed)`.
pub open spec fn spec_aper_length(data: Seq<u8>) -> Result<(usize, usize), DecodeError> {
    if data.len() == 0 {
        Err(DecodeError::ShortBuffer)
    } else if data[0] < 0x80 {
        Ok((data[0] as usize, 1usize))
    } else if data[0] < 0xC0 {
        if data.len() < 2 {
            Err(DecodeError::ShortBuffer)
        } else {
            Ok((((data[0] - 0x80) * 256 + data[1]) as usize, 2usize))
        }
    } else {
        Err(DecodeError::UnsupportedFragmentedLength)
    }
}

/// The octets that announce a length of `n`.
pub open spec fn aper_length_octets(n: nat) -> Seq<u8> {
    if n < 128 {
        seq![n as u8]
    } else if n < 16384 {
        seq![(0x80 + n / 256) as u8, (n % 256) as u8]
    } else {
        seq![0xC0u8, ((n / 256) % 256) as u8, (n % 256) as u8]
    }
}

pub fn decode_aper_length(data: &[u8]) -> (r: Result<(usize, usize), DecodeError>)
    ensures
        r == spec_aper_length(data@),
{
    if data.len() == 0 {
        return Err(DecodeError::ShortBuffer);
    }
    let b0 = data[0];
    if b0 < 0x80 {
        Ok((b0 as usize, 1))
    } else if b0 < 0xC0 {
        if data.len() < 2 {
            return Err(DecodeError::ShortBuffer);
        }
        let length: usize = (b0 - 0x80) as usize * 256 + data[1] as usize;
        Ok((length, 2))
    } else {
        Err(DecodeError::UnsupportedFragmentedLength)
    }
}

pub fn encode_aper_length(length: usize, buf: &mut Vec<u8>)
    ensures
        final(buf)@ == old(buf)@ + aper_length_octets(length as nat),
{
    if length < 128 {
        buf.push(length as u8);
    } else if length < 16384 {
        buf.push((0x80 + length / 256) as u8);
        buf.push((length % 256) as u8);
    } else {
        buf.push(0xC0);
        buf.push(((length / 256) % 256) as u8);
        buf.push((length % 256) as u8);
    }
    assert(final(buf)@ =~= old(buf)@ + aper_length_octets(length as nat));
}

/// A length written by the encoder is read back whole, from one octet below
/// 128 and from two below 16384, whatever follows it.
pub proof fn lemma_aper_length_round_trip(n: nat, rest: Seq<u8>)
    requires
        n < 16384,
    ensures
        spec_aper_length(aper_length_octets(n) + rest) == Ok::<(usize, usize), DecodeError>(
            (n as usize, if n < 128 { 1usize } else { 2usize }),
        ),
{
    let s = aper_length_octets(n) + rest;
    if n >= 128 {
        assert(s[0] == (0x80 + n / 256) as u8);
        assert(s[1] == (n % 256) as u8);
        assert((n / 256) * 256 + n % 256 == n) by (nonlinear_arith);
    }
}

} // verus!

verus! {

/// Big-endian value of an octet string.
pub open spec fn be_value(b: Seq<u8>) -> nat
    decreases b.len(),
{
    if b.len() == 0 {
        0
    } else {
        be_value(b.drop_last()) * 256 + b.last() as nat
    }
}

pub open spec fn pow256(n: nat) -> nat
    decreases n,
{
    if n == 0 {
        1
    } else {
        256 * pow256((n - 1) as nat)
    }
}

/// A definite-form length at the start of `data`: one octet below 128,
/// else an octet `0x80 | n` (n from 1 to 4) and `n` big-endian octets.
/// Gives `(length, octets consumed)`.
pub open spec fn spec_definite_length(data: Seq<u8>) -> Result<(usize, usize), DecodeError> {
    if data.len() == 0 {
        Err(DecodeError::ShortBuffer)
    } else if data[0] < 128 {
        Ok((data[0] as usize, 1usize))
    } else {
        let n = data[0] - 128;
        if n == 0 || n > 4 {
            Err(DecodeError::InvalidLength)
        } else if data.len() < 1 + n {
            Err(DecodeError::ShortBuffer)
        } else {
            Ok((be_value(data.subrange(1, 1 + n)) as usize, (1 + n) as usize))
        }
    }
}

pub fn decode_length(data: &[u8]) -> (r: Result<(usize, usize), DecodeError>)
    ensures
        r == spec_definite_length(data@),
{
    if data.len() == 0 {
        return Err(DecodeError::ShortBuffer);
    }
    if data[0] < 128 {
        return Ok((data[0] as usize, 1));
    }
    let num_bytes = (data[0] - 128) as usize;
    if num_bytes == 0 || num_bytes > 4 {
        return Err(DecodeError::InvalidLength);
    }
    if data.len() < 1 + num_bytes {
        return Err(DecodeError::ShortBuffer);
    }
    let mut length: u64 = 0;
    let mut i: usize = 0;
    assert(data@.subrange(1, 1) =~= Seq::<u8>::empty());
    while i < num_bytes
        invariant
            1 <= num_bytes <= 4,
            1 + num_bytes <= data@.len(),
            i <= num_bytes,
            length as nat == be_value(data@.subrange(1, 1 + i)),
            length < pow256(i as nat),
        decreases num_bytes - i,
    {
        assert(data@.subrange(1, 1 + i + 1).drop_last() =~= data@.subrange(1, 1 + i));
        assert(pow256(i as nat) <= 0x100_0000) by {
            reveal_with_fuel(pow256, 4);
        }
        length = length * 256 + data[1 + i] as u64;
        i += 1;
    }
    assert(pow256(4) == 0x1_0000_0000) by {
        reveal_with_fuel(pow256, 5);
    }
    assert(pow256(i as nat) <= 0x1_0000_0000) by {
        reveal_with_fuel(pow256, 5);
    }
    Ok((length as usize, 1 + num_bytes))
}

} // verus!
