use vstd::prelude::*;
use vstd::utf8::{decode_utf8, valid_utf8};

verus! {

/// Relies on std's `String::push`: the character is appended at the end.
#[verifier::external_body]
pub(crate) fn push_char(s: &mut String, c: char)
    ensures
        final(s)@ == old(s)@.push(c),
{
    s.push(c);
}

/// The decimal digit of a number below 10.
pub open spec fn decimal_digit(n: nat) -> char {
    (n + 48) as char
}

/// A natural number in decimal, without leading zeros.
pub open spec fn decimal(n: nat) -> Seq<char>
    decreases n,
{
    if n < 10 {
        seq![decimal_digit(n)]
    } else {
        decimal(n / 10) + seq![decimal_digit(n % 10)]
    }
}

/// An integer in decimal, with a minus sign when negative.
pub open spec fn signed_decimal(v: int) -> Seq<char> {
    if v < 0 {
        seq!['-'] + decimal((-v) as nat)
    } else {
        decimal(v as nat)
    }
}

/// Appends `n` in decimal.
pub(crate) fn push_decimal(s: &mut String, n: u64)
    ensures
        final(s)@ == old(s)@ + decimal(n as nat),
    decreases n,
{
    if n >= 10 {
        push_decimal(s, n / 10);
    }
    let d: u8 = (n % 10) as u8;
    push_char(s, (d + 48) as char);
    assert(s@ =~= old(s)@ + decimal(n as nat));
}

/// Appends `v` in decimal, with a minus sign when negative.
pub(crate) fn push_signed_decimal(s: &mut String, v: i64)
    requires
        v > i64::MIN,
    ensures
        final(s)@ == old(s)@ + signed_decimal(v as int),
{
    if v < 0 {
        push_char(s, '-');
        push_decimal(s, (-v) as u64);
        assert(s@ =~= old(s)@ + signed_decimal(v as int));
    } else {
        push_decimal(s, v as u64);
    }
}

/// Appends the characters of `t`.
pub(crate) fn push_text(s: &mut String, t: &str)
    ensures
        final(s)@ == old(s)@ + t@,
{
    s.append(t);
}

/// Each octet read as the character with that code (ISO-8859-1).
pub open spec fn latin1(d: Seq<u8>) -> Seq<char> {
    d.map_values(|b: u8| b as char)
}

/// The text without its trailing NUL characters.
pub open spec fn trim_nuls(s: Seq<char>) -> Seq<char>
    decreases s.len(),
{
    if s.len() > 0 && s.last() == '\0' {
        trim_nuls(s.drop_last())
    } else {
        s
    }
}

/// The text of SSID octets: UTF-8 where they are valid UTF-8, else
/// ISO-8859-1, without trailing NULs.
pub open spec fn ssid_text(d: Seq<u8>) -> Seq<char> {
    trim_nuls(if valid_utf8(d) { decode_utf8(d) } else { latin1(d) })
}

/// Relies on `nl80211_rs::information_element::Ssid::parse` to read SSID
/// octets as text: UTF-8 first, ISO-8859-1 when that fails (every octet
/// decodes), then trailing NULs trimmed. It always returns `Ok`.
#[verifier::external_body]
pub(crate) fn decode_ssid(data: &Vec<u8>) -> (r: String)
    ensures
        r@ == ssid_text(data@),
{
    match nl80211_rs::information_element::Ssid::parse(data.as_slice()) {
        Ok(ssid) => ssid.ssid,
        Err(_) => String::new(),
    }
}

/// The lowercase hexadecimal digit of a number below 16.
pub open spec fn hex_digit(n: u8) -> char
    recommends
        n < 16,
{
    if n < 10 {
        (n + 48) as char
    } else {
        (n + 87) as char
    }
}

pub open spec fn is_lower_hex(c: char) -> bool {
    ('0' <= c && c <= '9') || ('a' <= c && c <= 'f')
}

/// The two lowercase hexadecimal digits of a byte.
pub open spec fn hex_pair(b: u8) -> Seq<char> {
    seq![hex_digit(b / 16), hex_digit(b % 16)]
}

/// The bytes of an address as two-digit lowercase hexadecimal, joined by colons.
pub open spec fn mac_text(b: Seq<u8>) -> Seq<char>
    decreases b.len(),
{
    if b.len() == 0 {
        seq![]
    } else if b.len() == 1 {
        hex_pair(b[0])
    } else {
        mac_text(b.drop_last()) + seq![':'] + hex_pair(b.last())
    }
}

fn hex_char(n: u8) -> (c: char)
    requires
        n < 16,
    ensures
        c == hex_digit(n),
{
    if n < 10 {
        (n + 48) as char
    } else {
        (n + 87) as char
    }
}

/// Formats an address as `aa:bb:cc:dd:ee:ff`; no bytes give the empty text.
pub fn format_mac(bytes: &Vec<u8>) -> (r: String)
    ensures
        r@ == mac_text(bytes@),
{
    let mut s = String::new();
    let mut i: usize = 0;
    while i < bytes.len()
        invariant
            i <= bytes@.len(),
            s@ == mac_text(bytes@.subrange(0, i as int)),
        decreases bytes@.len() - i,
    {
        let b = bytes[i];
        if i > 0 {
            push_char(&mut s, ':');
        }
        push_char(&mut s, hex_char(b / 16));
        push_char(&mut s, hex_char(b % 16));
        proof {
            let next = bytes@.subrange(0, i + 1);
            assert(next.drop_last() =~= bytes@.subrange(0, i as int));
            assert(next.last() == b);
            assert(s@ =~= mac_text(next));
        }
        i = i + 1;
    }
    assert(bytes@.subrange(0, bytes@.len() as int) =~= bytes@);
    s
}

proof fn lemma_hex_pair(b: u8)
    ensures
        is_lower_hex(hex_pair(b)[0]),
        is_lower_hex(hex_pair(b)[1]),
{
    assert(b / 16 < 16);
    assert(b % 16 < 16);
}

proof fn lemma_mac_text_shape(b: Seq<u8>)
    requires
        b.len() >= 1,
    ensures
        mac_text(b).len() == 3 * b.len() - 1,
        forall|i: int| 0 <= i < mac_text(b).len() ==>
            if i % 3 == 2 { #[trigger] mac_text(b)[i] == ':' } else { is_lower_hex(mac_text(b)[i]) },
    decreases b.len(),
{
    lemma_hex_pair(b.last());
    if b.len() > 1 {
        let p = b.drop_last();
        lemma_mac_text_shape(p);
        let t = mac_text(b);
        let n = mac_text(p).len();
        assert forall|i: int| 0 <= i < t.len() implies
            if i % 3 == 2 { #[trigger] t[i] == ':' } else { is_lower_hex(t[i]) } by {
            if i < n {
                assert(t[i] == mac_text(p)[i]);
            } else if i == n {
                assert(t[i] == ':');
            } else if i == n + 1 {
                assert(t[i] == hex_pair(b.last())[0]);
            } else {
                assert(t[i] == hex_pair(b.last())[1]);
            }
        }
    }
}

/// A six-byte address is formatted as six pairs of lowercase hexadecimal
/// digits separated by colons: `^[0-9a-f]{2}(:[0-9a-f]{2}){5}$`.
pub proof fn lemma_mac_text_six_bytes(b: Seq<u8>)
    requires
        b.len() == 6,
    ensures
        mac_text(b).len() == 17,
        forall|i: int| 0 <= i < 17 && i % 3 == 2 ==> #[trigger] mac_text(b)[i] == ':',
        forall|i: int| 0 <= i < 17 && i % 3 != 2 ==> is_lower_hex(#[trigger] mac_text(b)[i]),
{
    lemma_mac_text_shape(b);
}

/// No bytes are formatted as the empty text.
pub proof fn lemma_mac_text_empty()
    ensures
        mac_text(Seq::<u8>::empty()).len() == 0,
{
}

} // verus!
