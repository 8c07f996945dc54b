//! Renderings of a datagram's payload: the hex dump shown in the table and
//! the printable-ASCII view shown in the details pane, and the hex decoding
//! used when a saved capture is read back.
use vstd::prelude::*;
use crate::text::push_char;

verus! {

/// Upper-case hexadecimal digit for a nibble (0 to 15).
pub open spec fn hex_digit(n: u8) -> char {
    if n < 10 {
        ((48 + n) as u8) as char
    } else {
        ((55 + n) as u8) as char
    }
}

/// The two upper-case hex digits of every byte, in order (`{:02X}` each).
pub open spec fn hexdump(b: Seq<u8>) -> Seq<char>
    decreases b.len(),
{
    if b.len() == 0 {
        Seq::empty()
    } else {
        hexdump(b.drop_last()) + seq![hex_digit(b.last() / 16), hex_digit(b.last() % 16)]
    }
}

/// `is_ascii_graphic`: the bytes from `!` to `~`.
pub open spec fn is_graphic(b: u8) -> bool {
    0x21 <= b <= 0x7e
}

/// `is_ascii_whitespace`: space, tab, line feed, form feed, carriage return.
pub open spec fn is_whitespace(b: u8) -> bool {
    b == 0x20 || b == 0x09 || b == 0x0a || b == 0x0c || b == 0x0d
}

/// How one byte shows in the ASCII view: itself if it is graphic or white
/// space, else a dot.
pub open spec fn ascii_char(b: u8) -> char {
    if is_graphic(b) || is_whitespace(b) {
        b as char
    } else {
        '.'
    }
}

/// The ASCII view of a payload, one character per byte.
pub open spec fn ascii_view(b: Seq<u8>) -> Seq<char> {
    Seq::new(b.len(), |i: int| ascii_char(b[i]))
}

/// `is_ascii_hexdigit`: `0`-`9`, `a`-`f`, `A`-`F`.
pub open spec fn is_hex_char(c: char) -> bool {
    ('0' <= c <= '9') || ('a' <= c <= 'f') || ('A' <= c <= 'F')
}

/// The value of a hex digit character.
pub open spec fn hex_value(c: char) -> int {
    if '0' <= c <= '9' {
        c as int - 48
    } else if 'a' <= c <= 'f' {
        c as int - 87
    } else {
        c as int - 55
    }
}

/// Every character of `s` is a hex digit.
pub open spec fn all_hex(s: Seq<char>) -> bool {
    forall|i: int| 0 <= i < s.len() ==> is_hex_char(#[trigger] s[i])
}

/// The bytes spelled by consecutive pairs of hex digits.
pub open spec fn hex_decoded(s: Seq<char>) -> Seq<u8> {
    Seq::new(s.len() / 2, |k: int| (hex_value(s[2 * k]) * 16 + hex_value(s[2 * k + 1])) as u8)
}

fn nibble_char(n: u8) -> (c: char)
    requires
        n < 16,
    ensures
        c == hex_digit(n),
{
    if n < 10 {
        (48u8 + n) as char
    } else {
        (55u8 + n) as char
    }
}

/// The hex dump of a payload: two upper-case hex digits per byte.
pub fn net_util_data_hexdump(bytes: &[u8]) -> (r: String)
    ensures
        r@ == hexdump(bytes@),
{
    let mut r = String::new();
    let n = bytes.len();
    for i in 0..n
        invariant
            n == bytes@.len(),
            r@ == hexdump(bytes@.take(i as int)),
    {
        let b = bytes[i];
        push_char(&mut r, nibble_char(b / 16));
        push_char(&mut r, nibble_char(b % 16));
        assert(bytes@.take(i + 1).drop_last() == bytes@.take(i as int));
    }
    assert(bytes@.take(n as int) == bytes@);
    r
}

fn ascii_byte(b: u8) -> (c: char)
    ensures
        c == ascii_char(b),
{
    let graphic = 0x21 <= b && b <= 0x7e;
    let white = b == 0x20 || b == 0x09 || b == 0x0a || b == 0x0c || b == 0x0d;
    if !graphic && !white {
        '.'
    } else {
        b as char
    }
}

/// The ASCII view of a payload: graphic characters and white space as they
/// are, every other byte as `.`.
pub fn net_util_data_ascii(bytes: &[u8]) -> (r: String)
    ensures
        r@ == ascii_view(bytes@),
{
    let mut r = String::new();
    let n = bytes.len();
    for i in 0..n
        invariant
            n == bytes@.len(),
            r@ == ascii_view(bytes@.take(i as int)),
    {
        push_char(&mut r, ascii_byte(bytes[i]));
        assert(r@ =~= ascii_view(bytes@.take(i + 1)));
    }
    assert(bytes@.take(n as int) == bytes@);
    r
}

/// The length of a hex dump and the two digits at each byte's place.
pub proof fn lemma_hexdump_shape(b: Seq<u8>)
    ensures
        hexdump(b).len() == 2 * b.len(),
        forall|k: int|
            0 <= k < b.len() ==> #[trigger] hexdump(b)[2 * k] == hex_digit(b[k] / 16)
                && hexdump(b)[2 * k + 1] == hex_digit(b[k] % 16),
    decreases b.len(),
{
    if b.len() > 0 {
        let dl = b.drop_last();
        lemma_hexdump_shape(dl);
        let tail = seq![hex_digit(b.last() / 16), hex_digit(b.last() % 16)];
        assert(hexdump(b) == hexdump(dl) + tail);
        assert forall|k: int| 0 <= k < b.len() implies #[trigger] hexdump(b)[2 * k] == hex_digit(
            b[k] / 16,
        ) && hexdump(b)[2 * k + 1] == hex_digit(b[k] % 16) by {
            if k < b.len() - 1 {
                assert(dl[k] == b[k]);
                assert(hexdump(dl)[2 * k] == hex_digit(dl[k] / 16));
                assert(hexdump(b)[2 * k] == hexdump(dl)[2 * k]);
                assert(hexdump(b)[2 * k + 1] == hexdump(dl)[2 * k + 1]);
            } else {
                assert(hexdump(b)[2 * k] == tail[0]);
                assert(hexdump(b)[2 * k + 1] == tail[1]);
            }
        }
    }
}

/// Decoding a hex dump gives back the bytes: every character is a hex
/// digit, there is an even number of them, and pairing them up restores the
/// payload.
pub proof fn lemma_hexdump_decodes(b: Seq<u8>)
    ensures
        all_hex(hexdump(b)),
        hexdump(b).len() % 2 == 0,
        hex_decoded(hexdump(b)) == b,
{
    lemma_hexdump_shape(b);
    let h = hexdump(b);
    assert forall|i: int| 0 <= i < h.len() implies is_hex_char(#[trigger] h[i]) by {
        let k = i / 2;
        if i % 2 == 0 {
            assert(i == 2 * k);
            assert(h[2 * k] == hex_digit(b[k] / 16));
        } else {
            assert(i == 2 * k + 1);
            assert(h[2 * k] == hex_digit(b[k] / 16));
        }
    }
    assert forall|k: int| 0 <= k < b.len() implies #[trigger] hex_decoded(h)[k] == b[k] by {
        assert(h[2 * k] == hex_digit(b[k] / 16));
        let hi = b[k] / 16;
        let lo = b[k] % 16;
        assert(hex_value(hex_digit(hi)) == hi);
        assert(hex_value(hex_digit(lo)) == lo);
    }
    assert(hex_decoded(h) =~= b);
}

/// What the ASCII view shows of each byte: one character per byte; every
/// ASCII graphic byte (`!` to `~`) and every ASCII white-space byte (space,
/// tab, line feed, form feed, carriage return) as itself; every other byte
/// (other control bytes, DEL and all bytes from 0x80) as a dot.
pub proof fn lemma_ascii_view_per_byte(b: Seq<u8>)
    ensures
        ascii_view(b).len() == b.len(),
        forall|i: int|
            0 <= i < b.len() && 0x21 <= b[i] <= 0x7e ==> #[trigger] ascii_view(b)[i] == b[i] as char,
        forall|i: int|
            0 <= i < b.len() && (b[i] == 0x20 || b[i] == 0x09 || b[i] == 0x0a || b[i] == 0x0c || b[i]
                == 0x0d) ==> #[trigger] ascii_view(b)[i] == b[i] as char,
        forall|i: int|
            0 <= i < b.len() && (b[i] < 0x09 || b[i] == 0x0b || (0x0e <= b[i] <= 0x1f) || b[i]
                >= 0x7f) ==> #[trigger] ascii_view(b)[i] == '.',
{
}

} // verus!
