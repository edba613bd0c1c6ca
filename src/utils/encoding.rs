use vstd::prelude::*;
use crate::error::{DecodeError, EncodeError};

verus! {

pub open spec fn is_decimal_digit(c: char) -> bool {
    '0' <= c && c <= '9'
}

pub open spec fn all_decimal_digits(s: Seq<char>) -> bool {
    forall|i: int| 0 <= i < s.len() ==> is_decimal_digit(#[trigger] s[i])
}

/// Value of a decimal digit character.
pub open spec fn digit_value(c: char) -> u8 {
    (c as u32 - 48) as u8
}

/// An MCC of three digits and an MNC of two or three.
pub open spec fn valid_plmn_text(mcc: Seq<char>, mnc: Seq<char>) -> bool {
    &&& mcc.len() == 3
    &&& (mnc.len() == 2 || mnc.len() == 3)
    &&& all_decimal_digits(mcc)
    &&& all_decimal_digits(mnc)
}

/// The three nibble-swapped octets of a PLMN; a two-digit MNC puts the
/// filler nibble 0xF in the high half of the middle octet.
pub open spec fn plmn_octets(mcc: Seq<char>, mnc: Seq<char>) -> Seq<u8> {
    seq![
        (digit_value(mcc[1]) * 16 + digit_value(mcc[0])) as u8,
        if mnc.len() == 2 {
            (0xF0 + digit_value(mcc[2])) as u8
        } else {
            (digit_value(mnc[2]) * 16 + digit_value(mcc[2])) as u8
        },
        (digit_value(mnc[1]) * 16 + digit_value(mnc[0])) as u8,
    ]
}

/// Decimal text of a nibble: one character below ten, two from ten up.
pub open spec fn nibble_text(n: u8) -> Seq<char> {
    if n < 10 {
        seq![(n + 48) as char]
    } else {
        seq!['1', (n - 10 + 48) as char]
    }
}

/// MCC text read from the first two octets of a PLMN.
pub open spec fn spec_mcc_of(b: Seq<u8>) -> Seq<char> {
    nibble_text(b[0] % 16) + nibble_text(b[0] / 16) + nibble_text(b[1] % 16)
}

/// MNC text read from a PLMN: two digits when the filler nibble is present,
/// else three.
pub open spec fn spec_mnc_of(b: Seq<u8>) -> Seq<char> {
    if b[1] / 16 == 15 {
        nibble_text(b[2] % 16) + nibble_text(b[2] / 16)
    } else {
        nibble_text(b[2] % 16) + nibble_text(b[2] / 16) + nibble_text(b[1] / 16)
    }
}

fn push_nibble_text(s: &mut String, n: u8)
    requires
        n < 16,
    ensures
        final(s)@ == old(s)@ + nibble_text(n),
{
    if n < 10 {
        s.push((n + 48) as char);
    } else {
        s.push('1');
        s.push((n - 10 + 48) as char);
    }
    assert(final(s)@ =~= old(s)@ + nibble_text(n));
}

/// MCC and MNC text of the PLMN held in the first three octets of `b`.
pub fn plmn_text(b: &[u8]) -> (r: (String, String))
    requires
        b@.len() >= 3,
    ensures
        r.0@ == spec_mcc_of(b@),
        r.1@ == spec_mnc_of(b@),
{
    let mut mcc = String::new();
    push_nibble_text(&mut mcc, b[0] % 16);
    push_nibble_text(&mut mcc, b[0] / 16);
    push_nibble_text(&mut mcc, b[1] % 16);
    let mut mnc = String::new();
    push_nibble_text(&mut mnc, b[2] % 16);
    push_nibble_text(&mut mnc, b[2] / 16);
    if b[1] / 16 != 15 {
        push_nibble_text(&mut mnc, b[1] / 16);
    }
    assert(mcc@ =~= spec_mcc_of(b@));
    assert(mnc@ =~= spec_mnc_of(b@));
    (mcc, mnc)
}

/// The digit values of `s`, or `None` when one of its characters is not a
/// decimal digit.
fn decimal_digits(s: &str) -> (r: Option<Vec<u8>>)
    ensures
        match r {
            Some(v) => all_decimal_digits(s@) && v@.len() == s@.len() && forall|i: int|
                0 <= i < s@.len() ==> v@[i] == digit_value(#[trigger] s@[i]) && v@[i] < 10,
            None => !all_decimal_digits(s@),
        },
{
    let n = s.unicode_len();
    let mut v: Vec<u8> = Vec::new();
    let mut i: usize = 0;
    while i < n
        invariant
            n == s@.len(),
            i <= n,
            v@.len() == i,
            forall|j: int| 0 <= j < i ==> is_decimal_digit(#[trigger] s@[j]),
            forall|j: int| 0 <= j < i ==> v@[j] == digit_value(#[trigger] s@[j]) && v@[j] < 10,
        decreases n - i,
    {
        let c = s.get_char(i);
        if c < '0' || c > '9' {
            return None;
        }
        v.push((c as u32 - 48) as u8);
        i += 1;
    }
    Some(v)
}

/// The three PLMN octets of an MCC and an MNC; text that is not a valid PLMN
/// is out of range.
pub fn encode_plmn(mcc: &str, mnc: &str) -> (r: Result<Vec<u8>, EncodeError>)
    ensures
        match r {
            Ok(v) => valid_plmn_text(mcc@, mnc@) && v@ == plmn_octets(mcc@, mnc@),
            Err(e) => !valid_plmn_text(mcc@, mnc@) && e == EncodeError::FieldOutOfRange,
        },
{
    let d = match decimal_digits(mcc) {
        Some(d) => d,
        None => return Err(EncodeError::FieldOutOfRange),
    };
    let e = match decimal_digits(mnc) {
        Some(e) => e,
        None => return Err(EncodeError::FieldOutOfRange),
    };
    if d.len() != 3 || (e.len() != 2 && e.len() != 3) {
        return Err(EncodeError::FieldOutOfRange);
    }
    assert(d@[0] == digit_value(mcc@[0]) && d@[1] == digit_value(mcc@[1]) && d@[2] == digit_value(mcc@[2]));
    assert(e@[0] == digit_value(mnc@[0]) && e@[1] == digit_value(mnc@[1]));
    assert(e@.len() == 3 ==> e@[2] == digit_value(mnc@[2]));
    let mut bytes: Vec<u8> = Vec::new();
    bytes.push(d[1] * 16 + d[0]);
    if e.len() == 2 {
        bytes.push(0xF0 + d[2]);
    } else {
        bytes.push(e[2] * 16 + d[2]);
    }
    bytes.push(e[1] * 16 + e[0]);
    assert(bytes@ =~= plmn_octets(mcc@, mnc@));
    Ok(bytes)
}

/// MCC and MNC text of a PLMN given as exactly three octets.
pub fn decode_plmn(bytes: &[u8]) -> (r: Result<(String, String), DecodeError>)
    ensures
        match r {
            Ok((mcc, mnc)) => bytes@.len() == 3 && mcc@ == spec_mcc_of(bytes@) && mnc@
                == spec_mnc_of(bytes@),
            Err(e) => bytes@.len() != 3 && e == DecodeError::InvalidLength,
        },
{
    if bytes.len() != 3 {
        return Err(DecodeError::InvalidLength);
    }
    Ok(plmn_text(bytes))
}

proof fn lemma_digit_text(c: char)
    requires
        is_decimal_digit(c),
    ensures
        digit_value(c) < 10,
        nibble_text(digit_value(c)) == seq![c],
{
    assert(nibble_text(digit_value(c)) =~= seq![c]);
}

proof fn lemma_nibbles(hi: u8, lo: u8)
    requires
        hi < 16,
        lo < 16,
    ensures
        ((hi * 16 + lo) as u8) % 16 == lo,
        ((hi * 16 + lo) as u8) / 16 == hi,
{
}

/// A valid PLMN survives encoding and decoding: the MCC and the MNC come back
/// with their lengths, two-digit and three-digit MNCs alike.
pub proof fn lemma_plmn_round_trip(mcc: Seq<char>, mnc: Seq<char>)
    requires
        valid_plmn_text(mcc, mnc),
    ensures
        spec_mcc_of(plmn_octets(mcc, mnc)) == mcc,
        spec_mnc_of(plmn_octets(mcc, mnc)) == mnc,
{
    let b = plmn_octets(mcc, mnc);
    lemma_digit_text(mcc[0]);
    lemma_digit_text(mcc[1]);
    lemma_digit_text(mcc[2]);
    lemma_digit_text(mnc[0]);
    lemma_digit_text(mnc[1]);
    lemma_nibbles(digit_value(mcc[1]), digit_value(mcc[0]));
    lemma_nibbles(digit_value(mnc[1]), digit_value(mnc[0]));
    if mnc.len() == 2 {
        lemma_nibbles(15, digit_value(mcc[2]));
        assert(spec_mnc_of(b) =~= mnc);
    } else {
        lemma_digit_text(mnc[2]);
        lemma_nibbles(digit_value(mnc[2]), digit_value(mcc[2]));
        assert(spec_mnc_of(b) =~= mnc);
    }
    assert(spec_mcc_of(b) =~= mcc);
}

/// Packs an AMF set id, an AMF pointer and a 5G-TMSI into one 5G-S-TMSI value.
pub fn encode_5g_s_tmsi(amf_set_id: u16, amf_pointer: u8, tmsi: u32) -> (r: u64)
    ensures
        r == ((amf_set_id as u64) << 38u64) | ((amf_pointer as u64) << 32u64) | (tmsi as u64),
{
    let mut result: u64 = 0;
    result = result | ((amf_set_id as u64) << 38u64);
    result = result | ((amf_pointer as u64) << 32u64);
    result = result | (tmsi as u64);
    assert(result == ((amf_set_id as u64) << 38u64) | ((amf_pointer as u64) << 32u64) | (tmsi as u64)) by (bit_vector)
        requires
            result == ((0u64 | ((amf_set_id as u64) << 38u64)) | ((amf_pointer as u64) << 32u64)) | (tmsi as u64),
    ;
    result
}

/// Splits a 5G-S-TMSI into its 10-bit AMF set id, 6-bit AMF pointer and
/// 32-bit 5G-TMSI.
pub fn decode_5g_s_tmsi(s_tmsi: u64) -> (r: (u16, u8, u32))
    ensures
        r.0 as u64 == (s_tmsi >> 38u64) & 0x3FF,
        r.1 as u64 == (s_tmsi >> 32u64) & 0x3F,
        r.2 as u64 == s_tmsi & 0xFFFF_FFFF,
{
    let amf_set_id = ((s_tmsi >> 38u64) & 0x3FF) as u16;
    let amf_pointer = ((s_tmsi >> 32u64) & 0x3F) as u8;
    let tmsi = (s_tmsi & 0xFFFF_FFFF) as u32;
    assert((s_tmsi >> 38u64) & 0x3FF <= 0x3FF) by (bit_vector);
    assert((s_tmsi >> 32u64) & 0x3F <= 0x3F) by (bit_vector);
    assert(s_tmsi & 0xFFFF_FFFF <= 0xFFFF_FFFF) by (bit_vector);
    (amf_set_id, amf_pointer, tmsi)
}

/// A set id below 1024 and a pointer below 64 come back from a packed
/// 5G-S-TMSI unchanged, with the 5G-TMSI.
pub proof fn lemma_s_tmsi_round_trip(amf_set_id: u16, amf_pointer: u8, tmsi: u32)
    requires
        amf_set_id < 1024,
        amf_pointer < 64,
    ensures
        ((((amf_set_id as u64) << 38u64) | ((amf_pointer as u64) << 32u64) | (tmsi as u64))
            >> 38u64) & 0x3FF == amf_set_id as u64,
        ((((amf_set_id as u64) << 38u64) | ((amf_pointer as u64) << 32u64) | (tmsi as u64))
            >> 32u64) & 0x3F == amf_pointer as u64,
        (((amf_set_id as u64) << 38u64) | ((amf_pointer as u64) << 32u64) | (tmsi as u64))
            & 0xFFFF_FFFF == tmsi as u64,
{
    let s = amf_set_id as u64;
    let p = amf_pointer as u64;
    let t = tmsi as u64;
    assert(((((s << 38u64) | (p << 32u64) | t) >> 38u64) & 0x3FF == s) && ((((s << 38u64) | (p
        << 32u64) | t) >> 32u64) & 0x3F == p) && (((s << 38u64) | (p << 32u64) | t) & 0xFFFF_FFFF
        == t)) by (bit_vector)
        requires
            s < 1024,
            p < 64,
            t <= 0xFFFF_FFFF,
    ;
}

} // verus!
