//! Text helpers: hex text, hex numbers, UTF-8.

use vstd::prelude::*;

verus! {

/// Relies on `String::push`: appends one character.
pub assume_specification[ String::push ](s: &mut String, ch: char)
    ensures
        final(s)@ == old(s)@.push(ch),
;

/// Lower-case hexadecimal digit for a nibble.
pub open spec fn hex_digit(n: u8) -> char
    recommends
        n < 16,
{
    if n < 10 {
        (n + 48) as char
    } else {
        (n + 87) as char
    }
}

pub fn push_hex_digit(s: &mut String, n: u8)
    requires
        n < 16,
    ensures
        final(s)@ == old(s)@.push(hex_digit(n)),
{
    if n < 10 {
        s.push((n + 48) as char);
    } else {
        s.push((n + 87) as char);
    }
}

} // verus!

verus! {

/// Lower-case hex text of a byte string, two digits per octet.
pub open spec fn hex_text(b: Seq<u8>) -> Seq<char>
    decreases b.len(),
{
    if b.len() == 0 {
        seq![]
    } else {
        hex_text(b.drop_last()) + seq![hex_digit(b.last() / 16), hex_digit(b.last() % 16)]
    }
}

/// Appends the hex text of `b[from..to]`.
pub fn push_hex_text(s: &mut String, b: &[u8], from: usize, to: usize)
    requires
        from <= to <= b@.len(),
    ensures
        final(s)@ == old(s)@ + hex_text(b@.subrange(from as int, to as int)),
{
    let mut i: usize = from;
    assert(b@.subrange(from as int, from as int) =~= seq![]);
    assert(s@ =~= old(s)@ + hex_text(b@.subrange(from as int, from as int)));
    while i < to
        invariant
            from <= i <= to <= b@.len(),
            s@ == old(s)@ + hex_text(b@.subrange(from as int, i as int)),
        decreases to - i,
    {
        push_hex_digit(s, b[i] / 16);
        push_hex_digit(s, b[i] % 16);
        assert(b@.subrange(from as int, i + 1).drop_last() =~= b@.subrange(from as int, i as int));
        assert(s@ =~= old(s)@ + hex_text(b@.subrange(from as int, i + 1)));
        i += 1;
    }
}

} // verus!

verus! {

pub open spec fn is_hex_char(c: char) -> bool {
    ('0' <= c && c <= '9') || ('a' <= c && c <= 'f') || ('A' <= c && c <= 'F')
}

pub open spec fn hex_char_value(c: char) -> int {
    if '0' <= c && c <= '9' {
        c as int - 48
    } else if 'a' <= c && c <= 'f' {
        c as int - 87
    } else {
        c as int - 55
    }
}

/// Text that `hex::decode` accepts: an even number of hex digits.
pub open spec fn is_hex_text(s: Seq<char>) -> bool {
    &&& s.len() % 2 == 0
    &&& forall|i: int| 0 <= i < s.len() ==> is_hex_char(#[trigger] s[i])
}

/// The octets that hex text spells, one per pair of digits.
pub open spec fn hex_octets(s: Seq<char>) -> Seq<u8> {
    Seq::new(
        s.len() / 2,
        |i: int| (hex_char_value(s[2 * i]) * 16 + hex_char_value(s[2 * i + 1])) as u8,
    )
}

/// Relies on `hex::decode`: text of an even number of hex digits, in either
/// case, gives one octet per pair of digits; any other text is refused.
#[verifier::external_body]
pub fn hex_decode(s: &str) -> (r: Option<Vec<u8>>)
    ensures
        match r {
            Some(v) => is_hex_text(s@) && v@ == hex_octets(s@),
            None => !is_hex_text(s@),
        },
{
    hex::decode(s).ok()
}

/// The digits that `from_str_radix` reads: the text without one leading `+`.
pub open spec fn radix_digits(s: Seq<char>) -> Seq<char> {
    if s.len() > 0 && s[0] == '+' {
        s.subrange(1, s.len() as int)
    } else {
        s
    }
}

/// Value of a string of hex digits.
pub open spec fn hex_value(s: Seq<char>) -> int
    decreases s.len(),
{
    if s.len() == 0 {
        0
    } else {
        hex_value(s.drop_last()) * 16 + hex_char_value(s.last())
    }
}

/// The number that hex text names when it fits below `limit`: an optional
/// `+` and at least one hex digit. `None` for any other text.
pub open spec fn hex_number(s: Seq<char>, limit: int) -> Option<int> {
    let d = radix_digits(s);
    if d.len() > 0 && (forall|i: int| 0 <= i < d.len() ==> is_hex_char(#[trigger] d[i])) && hex_value(d)
        < limit {
        Some(hex_value(d))
    } else {
        None
    }
}

proof fn lemma_hex_value_nonneg(s: Seq<char>)
    requires
        forall|i: int| 0 <= i < s.len() ==> is_hex_char(#[trigger] s[i]),
    ensures
        hex_value(s) >= 0,
    decreases s.len(),
{
    if s.len() > 0 {
        lemma_hex_value_nonneg(s.drop_last());
    }
}

/// Reads hex text as a number below `limit`, the way an unsigned
/// `from_str_radix(s, 16)` does; `None` where it fails or does not fit.
pub fn parse_hex_number(s: &str, limit: u32) -> (r: Option<u32>)
    requires
        limit > 0,
    ensures
        match r {
            Some(v) => hex_number(s@, limit as int) == Some(v as int),
            None => hex_number(s@, limit as int) is None,
        },
{
    let n = s.unicode_len();
    let mut i: usize = 0;
    if n > 0 && s.get_char(0) == '+' {
        i = 1;
    }
    let from = i;
    let ghost d = radix_digits(s@);
    assert(d =~= s@.subrange(from as int, n as int));
    if from == n {
        return None;
    }
    let mut value: u32 = 0;
    while i < n
        invariant
            n == s@.len(),
            from <= i <= n,
            d == s@.subrange(from as int, n as int),
            d == radix_digits(s@),
            forall|j: int| from <= j < i ==> is_hex_char(#[trigger] s@[j]),
            value as int == hex_value(s@.subrange(from as int, i as int)),
            value < limit,
        decreases n - i,
    {
        let c = s.get_char(i);
        let digit: u32 = if '0' <= c && c <= '9' {
            c as u32 - 48
        } else if 'a' <= c && c <= 'f' {
            c as u32 - 87
        } else if 'A' <= c && c <= 'F' {
            c as u32 - 55
        } else {
            assert(d[i - from] == c);
            assert(!is_hex_char(d[i - from]));
            assert(!(forall|j: int| 0 <= j < d.len() ==> is_hex_char(#[trigger] d[j])));
            return None;
        };
        assert(s@.subrange(from as int, i + 1).drop_last() =~= s@.subrange(from as int, i as int));
        let next: u64 = value as u64 * 16 + digit as u64;
        if next >= limit as u64 {
            proof {
                let t = s@.subrange(from as int, n as int);
                assert(t.subrange(0, i + 1 - from) =~= s@.subrange(from as int, i + 1));
                if forall|j: int| 0 <= j < t.len() ==> is_hex_char(#[trigger] t[j]) {
                    lemma_hex_prefix_grows(t, (i - from) as int);
                    assert(hex_value(s@.subrange(from as int, i + 1)) == next);
                    assert(hex_value(t) >= limit);
                }
                assert(t == d);
            }
            return None;
        }
        let next = next as u32;
        value = next;
        i += 1;
    }
    assert(s@.subrange(from as int, n as int) =~= d);
    Some(value)
}

/// A longer run of hex digits is worth at least as much as its prefix.
proof fn lemma_hex_prefix_grows(t: Seq<char>, k: int)
    requires
        0 <= k < t.len(),
        forall|j: int| 0 <= j < t.len() ==> is_hex_char(#[trigger] t[j]),
    ensures
        hex_value(t) >= hex_value(t.subrange(0, k + 1)),
    decreases t.len(),
{
    if t.len() == k + 1 {
        assert(t.subrange(0, k + 1) =~= t);
    } else {
        let u = t.drop_last();
        assert forall|j: int| 0 <= j < u.len() implies is_hex_char(#[trigger] u[j]) by {
            assert(u[j] == t[j]);
        }
        lemma_hex_prefix_grows(u, k);
        assert(u.subrange(0, k + 1) =~= t.subrange(0, k + 1));
        lemma_hex_value_nonneg(u);
    }
}

} // verus!

verus! {

/// Relies on `std::str::from_utf8`: octets that are valid UTF-8 are read
/// as the text they encode; any others are refused.
#[verifier::external_body]
pub fn utf8_text(b: &[u8]) -> (r: Option<String>)
    ensures
        match r {
            Some(s) => vstd::utf8::valid_utf8(b@) && s@ == vstd::utf8::decode_utf8(b@),
            None => !vstd::utf8::valid_utf8(b@),
        },
{
    std::str::from_utf8(b).ok().map(|s| s.to_string())
}

/// Three hex digits of a number below 4096.
pub open spec fn hex3(v: int) -> Seq<char> {
    seq![hex_digit((v / 256) as u8), hex_digit((v / 16 % 16) as u8), hex_digit((v % 16) as u8)]
}

/// Two hex digits of a number below 256.
pub open spec fn hex2(v: int) -> Seq<char> {
    seq![hex_digit((v / 16) as u8), hex_digit((v % 16) as u8)]
}

pub fn push_hex3(s: &mut String, v: u32)
    requires
        v < 4096,
    ensures
        final(s)@ == old(s)@ + hex3(v as int),
{
    push_hex_digit(s, (v / 256) as u8);
    push_hex_digit(s, (v / 16 % 16) as u8);
    push_hex_digit(s, (v % 16) as u8);
    assert(final(s)@ =~= old(s)@ + hex3(v as int));
}

pub fn push_hex2(s: &mut String, v: u32)
    requires
        v < 256,
    ensures
        final(s)@ == old(s)@ + hex2(v as int),
{
    push_hex_digit(s, (v / 16) as u8);
    push_hex_digit(s, (v % 16) as u8);
    assert(final(s)@ =~= old(s)@ + hex2(v as int));
}

} // verus!
