//! The address codec: dotted-quad IPv4 text and the 32-bit key that stands
//! for it in the blacklist.

use vstd::prelude::*;
use vstd::string::*;
use vstd::utf8::*;

use crate::text::{decimal, digit_char, digit_value, is_digit, lemma_decimal_digits};

verus! {

/// The one way an address text can fail: it is not a dotted quad.
#[derive(Debug, Clone, Copy, PartialEq, Eq, Structural)]
pub struct InvalidAddress;

/// The dotted-quad text of four octets: each in decimal notation, without
/// leading zeros, separated by single dots.
pub open spec fn dotted_quad(a: u8, b: u8, c: u8, d: u8) -> Seq<char> {
    decimal(a as nat) + seq!['.'] + decimal(b as nat) + seq!['.'] + decimal(c as nat) + seq!['.']
        + decimal(d as nat)
}

/// Four octets packed big-endian, the first octet in the top byte, so that
/// keys order as addresses do.
pub open spec fn pack_octets(a: u8, b: u8, c: u8, d: u8) -> u32 {
    ((a as u32) << 24) | ((b as u32) << 16) | ((c as u32) << 8) | (d as u32)
}

/// Whether `text` is the dotted quad of the address whose key is `key`.
pub open spec fn names_address(text: Seq<char>, key: u32) -> bool {
    exists|a: u8, b: u8, c: u8, d: u8|
        text == #[trigger] dotted_quad(a, b, c, d) && key == pack_octets(a, b, c, d)
}

/// The key of the address that `text` names, if it names one.
pub open spec fn ipv4_key(text: Seq<char>) -> Option<u32> {
    if exists|key: u32| names_address(text, key) {
        Some(choose|key: u32| names_address(text, key))
    } else {
        None
    }
}

/// Whether `text` has a digit at position `i`.
spec fn digit_at(text: Seq<char>, i: int) -> bool {
    0 <= i < text.len() && is_digit(text[i])
}

/// The octet written at position `i` of `text` and the position after it:
/// the longest run of digits there, if it is one to three digits long, has no
/// leading zero and is worth at most 255.
#[verifier::opaque]
spec fn octet_at(text: Seq<char>, i: int) -> Option<(nat, int)> {
    if !digit_at(text, i) {
        None
    } else if !digit_at(text, i + 1) {
        Some((digit_value(text[i]), i + 1))
    } else if text[i] == '0' {
        None
    } else if !digit_at(text, i + 2) {
        Some((digit_value(text[i]) * 10 + digit_value(text[i + 1]), i + 2))
    } else if digit_at(text, i + 3) {
        None
    } else {
        let value = digit_value(text[i]) * 100 + digit_value(text[i + 1]) * 10 + digit_value(
            text[i + 2],
        );
        if value > 255 {
            None
        } else {
            Some((value, i + 3))
        }
    }
}

/// Whether `text` has a dot at position `i`.
spec fn dot_at(text: Seq<char>, i: int) -> bool {
    0 <= i < text.len() && text[i] == '.'
}

/// The four octets that `text` is read as, field by field from the left.
spec fn quad_fields(text: Seq<char>) -> Option<(nat, nat, nat, nat)> {
    match octet_at(text, 0) {
        Some((a, i1)) if dot_at(text, i1) => match octet_at(text, i1 + 1) {
            Some((b, i2)) if dot_at(text, i2) => match octet_at(text, i2 + 1) {
                Some((c, i3)) if dot_at(text, i3) => match octet_at(text, i3 + 1) {
                    Some((d, i4)) if i4 == text.len() => Some((a, b, c, d)),
                    _ => None,
                },
                _ => None,
            },
            _ => None,
        },
        _ => None,
    }
}

/// The decimal notation of an octet is one to three digits long.
proof fn lemma_decimal_octet(n: u8)
    ensures
        1 <= decimal(n as nat).len() <= 3,
        forall|i: int|
            0 <= i < decimal(n as nat).len() ==> is_digit(#[trigger] decimal(n as nat)[i]),
        n < 10 ==> decimal(n as nat) =~= seq![digit_char(n as nat)],
        10 <= n < 100 ==> decimal(n as nat) =~= seq![
            digit_char(n as nat / 10),
            digit_char(n as nat % 10),
        ],
        100 <= n ==> decimal(n as nat) =~= seq![
            digit_char(n as nat / 100),
            digit_char(n as nat / 10 % 10),
            digit_char(n as nat % 10),
        ],
{
    reveal_with_fuel(decimal, 3);
}

/// Where `text` holds the decimal notation of `n` from position `i` on, and
/// no digit follows it, `octet_at` reads `n` there.
proof fn lemma_octet_at_reads(text: Seq<char>, i: int, n: u8)
    requires
        0 <= i,
        i + decimal(n as nat).len() <= text.len(),
        text.subrange(i, i + decimal(n as nat).len()) == decimal(n as nat),
        !digit_at(text, i + decimal(n as nat).len()),
    ensures
        octet_at(text, i) == Some((n as nat, i + decimal(n as nat).len())),
{
    reveal(octet_at);
    lemma_decimal_octet(n);
    let notation = decimal(n as nat);
    assert forall|k: int| 0 <= k < notation.len() implies text[i + k] == notation[k] by {
        assert(text.subrange(i, i + notation.len())[k] == text[i + k]);
    }
    if n < 10 {
        assert(text[i] == notation[0]);
    } else if n < 100 {
        assert(text[i] == notation[0]);
        assert(text[i + 1] == notation[1]);
    } else {
        assert(text[i] == notation[0]);
        assert(text[i + 1] == notation[1]);
        assert(text[i + 2] == notation[2]);
    }
}

/// What `octet_at` reads is an octet, written in decimal notation between
/// the two positions, and no digit follows it.
proof fn lemma_octet_at_is_decimal(text: Seq<char>, i: int)
    requires
        0 <= i,
        octet_at(text, i) is Some,
    ensures
        octet_at(text, i).unwrap().0 <= 255,
        i < octet_at(text, i).unwrap().1 <= text.len(),
        text.subrange(i, octet_at(text, i).unwrap().1) == decimal(octet_at(text, i).unwrap().0),
        !digit_at(text, octet_at(text, i).unwrap().1),
{
    reveal(octet_at);
    reveal_with_fuel(decimal, 3);
    let (value, next) = octet_at(text, i)->0;
    assert(text.subrange(i, next) =~= decimal(value));
}

/// Four pieces joined by dots.
spec fn dotted(p: Seq<char>, q: Seq<char>, r: Seq<char>, s: Seq<char>) -> Seq<char> {
    p + seq!['.'] + q + seq!['.'] + r + seq!['.'] + s
}

/// Where the pieces of a dotted text lie in it.
proof fn lemma_dotted_pieces(p: Seq<char>, q: Seq<char>, r: Seq<char>, s: Seq<char>)
    ensures
        ({
            let text = dotted(p, q, r, s);
            let i1 = p.len() as int;
            let i2 = i1 + 1 + q.len();
            let i3 = i2 + 1 + r.len();
            &&& text.len() == i3 + 1 + s.len()
            &&& text.subrange(0, i1) == p
            &&& text[i1] == '.'
            &&& text.subrange(i1 + 1, i2) == q
            &&& text[i2] == '.'
            &&& text.subrange(i2 + 1, i3) == r
            &&& text[i3] == '.'
            &&& text.subrange(i3 + 1, text.len() as int) == s
        }),
{
    let text = dotted(p, q, r, s);
    let i1 = p.len() as int;
    let i2 = i1 + 1 + q.len();
    let i3 = i2 + 1 + r.len();
    assert(text.subrange(0, i1) =~= p);
    assert(text.subrange(i1 + 1, i2) =~= q);
    assert(text.subrange(i2 + 1, i3) =~= r);
    assert(text.subrange(i3 + 1, text.len() as int) =~= s);
}

/// A text cut at three dots is its four pieces joined by dots.
proof fn lemma_dotted_whole(text: Seq<char>, i1: int, i2: int, i3: int)
    requires
        0 <= i1 < i2 < i3 < text.len(),
        text[i1] == '.',
        text[i2] == '.',
        text[i3] == '.',
    ensures
        text == dotted(
            text.subrange(0, i1),
            text.subrange(i1 + 1, i2),
            text.subrange(i2 + 1, i3),
            text.subrange(i3 + 1, text.len() as int),
        ),
{
    assert(text =~= dotted(
        text.subrange(0, i1),
        text.subrange(i1 + 1, i2),
        text.subrange(i2 + 1, i3),
        text.subrange(i3 + 1, text.len() as int),
    ));
}

/// The text that reads as four fields is the dotted quad of those fields.
proof fn lemma_fields_sound(text: Seq<char>)
    requires
        quad_fields(text) is Some,
    ensures
        ({
            let (a, b, c, d) = quad_fields(text)->0;
            a <= 255 && b <= 255 && c <= 255 && d <= 255 && text == dotted_quad(
                a as u8,
                b as u8,
                c as u8,
                d as u8,
            )
        }),
{
    let (a, i1) = octet_at(text, 0)->0;
    lemma_octet_at_is_decimal(text, 0);
    let (b, i2) = octet_at(text, i1 + 1)->0;
    lemma_octet_at_is_decimal(text, i1 + 1);
    let (c, i3) = octet_at(text, i2 + 1)->0;
    lemma_octet_at_is_decimal(text, i2 + 1);
    let (d, i4) = octet_at(text, i3 + 1)->0;
    lemma_octet_at_is_decimal(text, i3 + 1);
    lemma_dotted_whole(text, i1, i2, i3);
}

/// A dotted quad reads as its four octets.
proof fn lemma_fields_complete(a: u8, b: u8, c: u8, d: u8)
    ensures
        quad_fields(dotted_quad(a, b, c, d)) == Some((a as nat, b as nat, c as nat, d as nat)),
{
    let text = dotted_quad(a, b, c, d);
    lemma_decimal_octet(a);
    lemma_decimal_octet(b);
    lemma_decimal_octet(c);
    lemma_decimal_octet(d);
    lemma_dotted_pieces(decimal(a as nat), decimal(b as nat), decimal(c as nat), decimal(d as nat));
    let i1 = decimal(a as nat).len() as int;
    let i2 = i1 + 1 + decimal(b as nat).len();
    let i3 = i2 + 1 + decimal(c as nat).len();
    lemma_octet_at_reads(text, 0, a);
    lemma_octet_at_reads(text, i1 + 1, b);
    lemma_octet_at_reads(text, i2 + 1, c);
    lemma_octet_at_reads(text, i3 + 1, d);
}

/// Packing loses nothing: equal keys come from equal octets.
proof fn lemma_pack_injective(a: u8, b: u8, c: u8, d: u8, e: u8, f: u8, g: u8, h: u8)
    requires
        pack_octets(a, b, c, d) == pack_octets(e, f, g, h),
    ensures
        a == e && b == f && c == g && d == h,
{
    assert(((a as u32) << 24) | ((b as u32) << 16) | ((c as u32) << 8) | (d as u32) == ((e as u32)
        << 24) | ((f as u32) << 16) | ((g as u32) << 8) | (h as u32) ==> a == e && b == f && c == g
        && d == h) by (bit_vector);
}

/// The key of a text is read off its four fields.
proof fn lemma_key_from_fields(text: Seq<char>)
    ensures
        ipv4_key(text) == match quad_fields(text) {
            Some((a, b, c, d)) => Some(pack_octets(a as u8, b as u8, c as u8, d as u8)),
            None => None,
        },
{
    if quad_fields(text) is Some {
        lemma_fields_sound(text);
        let (a, b, c, d) = quad_fields(text)->0;
        let key = pack_octets(a as u8, b as u8, c as u8, d as u8);
        assert(text == dotted_quad(a as u8, b as u8, c as u8, d as u8));
        assert(names_address(text, key));
        let chosen = choose|key: u32| names_address(text, key);
        assert(names_address(text, chosen));
        let (e, f, g, h) = choose|e: u8, f: u8, g: u8, h: u8|
            text == #[trigger] dotted_quad(e, f, g, h) && chosen == pack_octets(e, f, g, h);
        lemma_fields_complete(e, f, g, h);
    } else {
        if exists|key: u32| names_address(text, key) {
            let key = choose|key: u32| names_address(text, key);
            let (e, f, g, h) = choose|e: u8, f: u8, g: u8, h: u8|
                text == #[trigger] dotted_quad(e, f, g, h) && key == pack_octets(e, f, g, h);
            lemma_fields_complete(e, f, g, h);
        }
    }
}

/// Whether `bytes` holds `text`, one byte for each of its characters.
spec fn holds_ascii(bytes: Seq<u8>, text: Seq<char>) -> bool {
    &&& bytes.len() == text.len()
    &&& forall|i: int|
        0 <= i < text.len() ==> #[trigger] bytes[i] < 128 && text[i] == bytes[i] as char
}

/// A dotted quad is made of ASCII characters.
proof fn lemma_dotted_quad_is_ascii(a: u8, b: u8, c: u8, d: u8)
    ensures
        is_ascii_chars(dotted_quad(a, b, c, d)),
{
    lemma_decimal_octet(a);
    lemma_decimal_octet(b);
    lemma_decimal_octet(c);
    lemma_decimal_octet(d);
    let text = dotted_quad(a, b, c, d);
    assert forall|i: int| 0 <= i < text.len() implies (text[i] as nat) < 128 by {
        assert(is_digit(text[i]) || text[i] == '.');
    }
}

/// Reads the octet written at `start`.
fn read_octet(
    bytes: &[u8],
    start: usize,
    Ghost(text): Ghost<Seq<char>>,
) -> (read: Option<(u8, usize)>)
    requires
        holds_ascii(bytes@, text),
        start <= bytes@.len(),
    ensures
        match read {
            Some((value, next)) => octet_at(text, start as int) == Some(
                (value as nat, next as int),
            ) && next <= bytes@.len(),
            None => octet_at(text, start as int) is None,
        },
{
    reveal(octet_at);
    let len: usize = bytes.len();
    if start >= len || !is_digit_byte(bytes[start]) {
        return None;
    }
    let d0: u8 = bytes[start] - 48;
    if start + 1 >= len || !is_digit_byte(bytes[start + 1]) {
        return Some((d0, start + 1));
    }
    if d0 == 0 {
        return None;
    }
    let d1: u8 = bytes[start + 1] - 48;
    if start + 2 >= len || !is_digit_byte(bytes[start + 2]) {
        return Some((d0 * 10 + d1, start + 2));
    }
    if start + 3 < len && is_digit_byte(bytes[start + 3]) {
        return None;
    }
    let d2: u8 = bytes[start + 2] - 48;
    let value: u16 = d0 as u16 * 100 + d1 as u16 * 10 + d2 as u16;
    if value > 255 {
        None
    } else {
        Some((value as u8, start + 3))
    }
}

/// Whether `byte` is the code of a digit.
fn is_digit_byte(byte: u8) -> (digit: bool)
    ensures
        digit == (48 <= byte <= 57),
{
    48 <= byte && byte <= 57
}

/// Whether a dot stands at `at`.
fn has_dot(bytes: &[u8], at: usize, Ghost(text): Ghost<Seq<char>>) -> (dot: bool)
    requires
        holds_ascii(bytes@, text),
    ensures
        dot == dot_at(text, at as int),
{
    at < bytes.len() && bytes[at] == 46
}

/// Encodes an address: the key of the address that `ip_str` names.
///
/// Succeeds exactly on dotted quads, four decimal octets of 0 to 255 without
/// leading zeros, and then gives the octets packed big-endian.
pub fn encode(ip_str: &str) -> (key: Result<u32, InvalidAddress>)
    ensures
        match key {
            Ok(k) => ipv4_key(ip_str@) == Some(k),
            Err(_) => ipv4_key(ip_str@) is None,
        },
{
    proof {
        lemma_key_from_fields(ip_str@);
    }
    if !ip_str.is_ascii() {
        proof {
            if quad_fields(ip_str@) is Some {
                lemma_fields_sound(ip_str@);
                let (a, b, c, d) = quad_fields(ip_str@)->0;
                lemma_dotted_quad_is_ascii(a as u8, b as u8, c as u8, d as u8);
            }
        }
        return Err(InvalidAddress);
    }
    let bytes = ip_str.as_bytes();
    let len: usize = bytes.len();
    let ghost text = ip_str@;
    proof {
        is_ascii_spec_bytes(ip_str);
        is_ascii_chars_nat_bound(text);
        assert forall|i: int| 0 <= i < text.len() implies #[trigger] bytes@[i] < 128 && text[i]
            == bytes@[i] as char by {
            char_u32_cast(text[i], bytes@[i] as u32);
        }
    }
    let (a, i1) = match read_octet(bytes, 0, Ghost(text)) {
        Some(field) => field,
        None => { return Err(InvalidAddress); },
    };
    if !has_dot(bytes, i1, Ghost(text)) {
        return Err(InvalidAddress);
    }
    let (b, i2) = match read_octet(bytes, i1 + 1, Ghost(text)) {
        Some(field) => field,
        None => { return Err(InvalidAddress); },
    };
    if !has_dot(bytes, i2, Ghost(text)) {
        return Err(InvalidAddress);
    }
    let (c, i3) = match read_octet(bytes, i2 + 1, Ghost(text)) {
        Some(field) => field,
        None => { return Err(InvalidAddress); },
    };
    if !has_dot(bytes, i3, Ghost(text)) {
        return Err(InvalidAddress);
    }
    let (d, i4) = match read_octet(bytes, i3 + 1, Ghost(text)) {
        Some(field) => field,
        None => { return Err(InvalidAddress); },
    };
    if i4 != len {
        return Err(InvalidAddress);
    }
    Ok(((a as u32) << 24) | ((b as u32) << 16) | ((c as u32) << 8) | (d as u32))
}

/// A dotted quad names the address of its octets.
pub proof fn lemma_dotted_quad_key(a: u8, b: u8, c: u8, d: u8)
    ensures
        ipv4_key(dotted_quad(a, b, c, d)) == Some(pack_octets(a, b, c, d)),
{
    lemma_key_from_fields(dotted_quad(a, b, c, d));
    lemma_fields_complete(a, b, c, d);
}

/// The codec is injective: two texts with the same key are the same text.
pub proof fn lemma_encode_injective(first: Seq<char>, second: Seq<char>)
    requires
        ipv4_key(first) is Some,
        ipv4_key(first) == ipv4_key(second),
    ensures
        first == second,
{
    lemma_key_from_fields(first);
    lemma_key_from_fields(second);
    lemma_fields_sound(first);
    lemma_fields_sound(second);
    let (a, b, c, d) = quad_fields(first)->0;
    let (e, f, g, h) = quad_fields(second)->0;
    lemma_pack_injective(a as u8, b as u8, c as u8, d as u8, e as u8, f as u8, g as u8, h as u8);
}

/// The codec covers the address space: every key has a text, the dotted
/// quad of its four bytes.
pub proof fn lemma_every_key_has_text(key: u32)
    ensures
        ipv4_key(
            dotted_quad((key >> 24) as u8, (key >> 16) as u8, (key >> 8) as u8, key as u8),
        ) == Some(key),
{
    let a = (key >> 24) as u8;
    let b = (key >> 16) as u8;
    let c = (key >> 8) as u8;
    let d = key as u8;
    lemma_dotted_quad_key(a, b, c, d);
    assert(((((key >> 24) as u8) as u32) << 24) | ((((key >> 16) as u8) as u32) << 16) | ((((key
        >> 8) as u8) as u32) << 8) | ((key as u8) as u32) == key) by (bit_vector);
}

/// Four numbers in decimal notation, joined by dots. For octets this is
/// their dotted quad.
pub open spec fn dotted_numbers(p: nat, q: nat, r: nat, s: nat) -> Seq<char> {
    decimal(p) + seq!['.'] + decimal(q) + seq!['.'] + decimal(r) + seq!['.'] + decimal(s)
}

/// How many dots `text` holds.
pub open spec fn dot_count(text: Seq<char>) -> nat
    decreases text.len(),
{
    if text.len() == 0 {
        0
    } else {
        dot_count(text.drop_last()) + if text.last() == '.' {
            1nat
        } else {
            0nat
        }
    }
}

/// Where `text` holds the decimal notation of `n` from position `i` on, and
/// no digit follows it, `octet_at` reads `n` there if it is an octet, and
/// nothing if it is larger.
proof fn lemma_octet_at_reads_number(text: Seq<char>, i: int, n: nat)
    requires
        0 <= i,
        i + decimal(n).len() <= text.len(),
        text.subrange(i, i + decimal(n).len()) == decimal(n),
        !digit_at(text, i + decimal(n).len()),
    ensures
        n <= 255 ==> octet_at(text, i) == Some((n, i + decimal(n).len())),
        n > 255 ==> octet_at(text, i) is None,
{
    if n <= 255 {
        lemma_octet_at_reads(text, i, n as u8);
    } else {
        reveal(octet_at);
        reveal_with_fuel(decimal, 4);
        let notation = decimal(n);
        lemma_decimal_digits(n);
        assert forall|k: int| 0 <= k < notation.len() implies text[i + k] == notation[k] by {
            assert(text.subrange(i, i + notation.len())[k] == text[i + k]);
        }
        if n < 1000 {
            assert(notation =~= seq![
                digit_char(n / 100),
                digit_char(n / 10 % 10),
                digit_char(n % 10),
            ]);
            assert(text[i] == notation[0]);
            assert(text[i + 1] == notation[1]);
            assert(text[i + 2] == notation[2]);
        } else {
            lemma_decimal_digits(n / 1000);
            assert(notation.len() >= 4);
            assert(text[i] == notation[0]);
            assert(text[i + 1] == notation[1]);
            assert(text[i + 2] == notation[2]);
            assert(text[i + 3] == notation[3]);
        }
    }
}

/// Four numbers joined by dots name an address exactly where each is an
/// octet: a field above 255 makes the whole text malformed.
pub proof fn lemma_dotted_numbers_key(p: nat, q: nat, r: nat, s: nat)
    ensures
        ipv4_key(dotted_numbers(p, q, r, s)) == if p <= 255 && q <= 255 && r <= 255 && s <= 255 {
            Some(pack_octets(p as u8, q as u8, r as u8, s as u8))
        } else {
            None
        },
{
    let text = dotted_numbers(p, q, r, s);
    lemma_key_from_fields(text);
    lemma_decimal_digits(p);
    lemma_decimal_digits(q);
    lemma_decimal_digits(r);
    lemma_decimal_digits(s);
    lemma_dotted_pieces(decimal(p), decimal(q), decimal(r), decimal(s));
    let i1 = decimal(p).len() as int;
    let i2 = i1 + 1 + decimal(q).len();
    let i3 = i2 + 1 + decimal(r).len();
    lemma_octet_at_reads_number(text, 0, p);
    lemma_octet_at_reads_number(text, i1 + 1, q);
    lemma_octet_at_reads_number(text, i2 + 1, r);
    lemma_octet_at_reads_number(text, i3 + 1, s);
}

/// The dots of two texts add up.
proof fn lemma_dot_count_concat(left: Seq<char>, right: Seq<char>)
    ensures
        dot_count(left + right) == dot_count(left) + dot_count(right),
    decreases right.len(),
{
    if right.len() == 0 {
        assert(left + right =~= left);
    } else {
        assert((left + right).drop_last() =~= left + right.drop_last());
        lemma_dot_count_concat(left, right.drop_last());
    }
}

/// A text of digits holds no dot.
proof fn lemma_digits_hold_no_dot(text: Seq<char>)
    requires
        forall|i: int| 0 <= i < text.len() ==> is_digit(#[trigger] text[i]),
    ensures
        dot_count(text) == 0,
    decreases text.len(),
{
    if text.len() > 0 {
        lemma_digits_hold_no_dot(text.drop_last());
    }
}

/// Every address text is made of digits and exactly three dots, and is 7
/// to 15 characters long.
proof fn lemma_address_shape(text: Seq<char>)
    requires
        ipv4_key(text) is Some,
    ensures
        forall|i: int| 0 <= i < text.len() ==> is_digit(#[trigger] text[i]) || text[i] == '.',
        dot_count(text) == 3,
        7 <= text.len() <= 15,
{
    lemma_key_from_fields(text);
    lemma_fields_sound(text);
    let (a, b, c, d) = quad_fields(text)->0;
    let pa = decimal(a);
    let pb = decimal(b);
    let pc = decimal(c);
    let pd = decimal(d);
    lemma_decimal_octet(a as u8);
    lemma_decimal_octet(b as u8);
    lemma_decimal_octet(c as u8);
    lemma_decimal_octet(d as u8);
    lemma_digits_hold_no_dot(pa);
    lemma_digits_hold_no_dot(pb);
    lemma_digits_hold_no_dot(pc);
    lemma_digits_hold_no_dot(pd);
    let dot = seq!['.'];
    assert(dot_count(dot) == 1) by {
        reveal_with_fuel(dot_count, 2);
        assert(dot.drop_last() =~= Seq::<char>::empty());
        assert(dot.last() == '.');
    }
    lemma_dot_count_concat(pa, dot);
    lemma_dot_count_concat(pa + dot, pb);
    lemma_dot_count_concat(pa + dot + pb, dot);
    lemma_dot_count_concat(pa + dot + pb + dot, pc);
    lemma_dot_count_concat(pa + dot + pb + dot + pc, dot);
    lemma_dot_count_concat(pa + dot + pb + dot + pc + dot, pd);
}

/// A text with a character that is neither a digit nor a dot names no
/// address.
pub proof fn lemma_foreign_character_rejected(text: Seq<char>, at: int)
    requires
        0 <= at < text.len(),
        !is_digit(text[at]),
        text[at] != '.',
    ensures
        ipv4_key(text) is None,
{
    if ipv4_key(text) is Some {
        lemma_address_shape(text);
    }
}

/// A text that does not hold exactly three dots, and so does not fall into
/// four fields, names no address.
pub proof fn lemma_wrong_field_count_rejected(text: Seq<char>)
    requires
        dot_count(text) != 3,
    ensures
        ipv4_key(text) is None,
{
    if ipv4_key(text) is Some {
        lemma_address_shape(text);
    }
}

/// A text shorter than 7 or longer than 15 characters, the empty text
/// among them, names no address.
pub proof fn lemma_wrong_length_rejected(text: Seq<char>)
    requires
        text.len() < 7 || text.len() > 15,
    ensures
        ipv4_key(text) is None,
{
    if ipv4_key(text) is Some {
        lemma_address_shape(text);
    }
}

} // verus!
