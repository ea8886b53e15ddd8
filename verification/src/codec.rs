//! The path codec: a reversible mapping between arbitrary strings and
//! filesystem-safe path segments.
//!
//! A string is encoded as the lowercase hexadecimal spelling of its UTF-8
//! bytes, two digits per byte, so a segment consists only of the characters
//! `0`-`9` and `a`-`f`, which are legal in every target filesystem. Decoding
//! is strict: a segment that is not the encoding of some string (odd length,
//! a character outside the digit set, or bytes that are not valid UTF-8) is
//! rejected rather than guessed at, so callers can recognise foreign entries
//! in a directory and skip them.

use vstd::prelude::*;
use vstd::string::StrSliceExecFns;
use vstd::string::StringExecFns;
use vstd::utf8::decode_utf8;
use vstd::utf8::decode_utf8_encode_utf8;
use vstd::utf8::encode_utf8;
use vstd::utf8::encode_utf8_decode_utf8;
use vstd::utf8::encode_utf8_valid_utf8;
use vstd::utf8::valid_utf8;

verus! {

/// True for the sixteen lowercase hexadecimal digit characters.
pub open spec fn is_hex_char(c: char) -> bool {
    ('0' <= c && c <= '9') || ('a' <= c && c <= 'f')
}

/// The lowercase hexadecimal digit character for a nibble value.
pub open spec fn nibble_char(n: u8) -> char
    recommends
        n < 16,
{
    if n == 0 {
        '0'
    } else if n == 1 {
        '1'
    } else if n == 2 {
        '2'
    } else if n == 3 {
        '3'
    } else if n == 4 {
        '4'
    } else if n == 5 {
        '5'
    } else if n == 6 {
        '6'
    } else if n == 7 {
        '7'
    } else if n == 8 {
        '8'
    } else if n == 9 {
        '9'
    } else if n == 10 {
        'a'
    } else if n == 11 {
        'b'
    } else if n == 12 {
        'c'
    } else if n == 13 {
        'd'
    } else if n == 14 {
        'e'
    } else {
        'f'
    }
}

/// The nibble value of a lowercase hexadecimal digit character.
pub open spec fn nibble_val(c: char) -> u8
    recommends
        is_hex_char(c),
{
    if '0' <= c && c <= '9' {
        ((c as u32) - ('0' as u32)) as u8
    } else {
        (((c as u32) - ('a' as u32)) + 10) as u8
    }
}

/// The lowercase hexadecimal spelling of a byte sequence, two digit
/// characters per byte, high nibble first.
pub open spec fn hex_chars(bytes: Seq<u8>) -> Seq<char>
    decreases bytes.len(),
{
    if bytes.len() == 0 {
        Seq::<char>::empty()
    } else {
        hex_chars(bytes.drop_last()) + seq![
            nibble_char((bytes.last() / 16) as u8),
            nibble_char((bytes.last() % 16) as u8),
        ]
    }
}

/// The byte sequence spelled by a sequence of hexadecimal digit characters,
/// or `None` when the sequence has odd length or holds a character outside
/// the lowercase digit set.
pub open spec fn unhex_chars(seg: Seq<char>) -> Option<Seq<u8>>
    decreases seg.len(),
{
    if seg.len() % 2 != 0 {
        None
    } else if seg.len() == 0 {
        Some(Seq::<u8>::empty())
    } else if !is_hex_char(seg[seg.len() - 2]) || !is_hex_char(seg[seg.len() - 1]) {
        None
    } else {
        match unhex_chars(seg.take(seg.len() - 2)) {
            Some(b) => Some(
                b.push((nibble_val(seg[seg.len() - 2]) * 16 + nibble_val(seg[seg.len() - 1])) as u8),
            ),
            None => None,
        }
    }
}

/// What `encode` returns: the hexadecimal spelling of the string's UTF-8 bytes.
pub open spec fn spec_encode(s: Seq<char>) -> Seq<char> {
    hex_chars(encode_utf8(s))
}

/// What `decode` returns: the string whose UTF-8 bytes the segment spells,
/// or `None` when the segment is not an encoding of any string.
pub open spec fn spec_decode(seg: Seq<char>) -> Option<Seq<char>> {
    match unhex_chars(seg) {
        Some(bytes) => if valid_utf8(bytes) {
            Some(decode_utf8(bytes))
        } else {
            None
        },
        None => None,
    }
}

/// The one-character string slice holding the hexadecimal digit for a nibble.
fn hex_digit_str(n: u8) -> (r: &'static str)
    requires
        n < 16,
    ensures
        r@ == seq![nibble_char(n)],
{
    proof {
        reveal_strlit("0");
        reveal_strlit("1");
        reveal_strlit("2");
        reveal_strlit("3");
        reveal_strlit("4");
        reveal_strlit("5");
        reveal_strlit("6");
        reveal_strlit("7");
        reveal_strlit("8");
        reveal_strlit("9");
        reveal_strlit("a");
        reveal_strlit("b");
        reveal_strlit("c");
        reveal_strlit("d");
        reveal_strlit("e");
        reveal_strlit("f");
    }
    let r: &'static str = if n == 0 {
        "0"
    } else if n == 1 {
        "1"
    } else if n == 2 {
        "2"
    } else if n == 3 {
        "3"
    } else if n == 4 {
        "4"
    } else if n == 5 {
        "5"
    } else if n == 6 {
        "6"
    } else if n == 7 {
        "7"
    } else if n == 8 {
        "8"
    } else if n == 9 {
        "9"
    } else if n == 10 {
        "a"
    } else if n == 11 {
        "b"
    } else if n == 12 {
        "c"
    } else if n == 13 {
        "d"
    } else if n == 14 {
        "e"
    } else {
        "f"
    };
    proof {
        assert(r@ =~= seq![nibble_char(n)]);
    }
    r
}

/// Encode an arbitrary string as a filesystem-safe path segment.
pub fn encode(s: &str) -> (r: String)
    ensures
        r@ == spec_encode(s@),
{
    let bytes: Vec<u8> = s.as_bytes_vec();
    let mut r = String::new();
    let mut i: usize = 0;
    while i < bytes.len()
        invariant
            i <= bytes@.len(),
            bytes@ == encode_utf8(s@),
            r@ == hex_chars(bytes@.take(i as int)),
        decreases bytes@.len() - i,
    {
        let b = bytes[i];
        r.append(hex_digit_str(b / 16));
        r.append(hex_digit_str(b % 16));
        proof {
            let t = bytes@.take(i + 1);
            assert(t.drop_last() =~= bytes@.take(i as int));
            assert(t.last() == bytes@[i as int]);
            assert(r@ =~= hex_chars(t));
        }
        i = i + 1;
    }
    proof {
        assert(bytes@.take(bytes@.len() as int) =~= bytes@);
    }
    r
}

/// The nibble value of a character, or `None` for a character outside the
/// lowercase hexadecimal digit set.
fn char_nibble(c: char) -> (r: Option<u8>)
    ensures
        r matches Some(v) ==> is_hex_char(c) && v == nibble_val(c) && v < 16,
        r is None ==> !is_hex_char(c),
{
    if '0' <= c && c <= '9' {
        Some((c as u32 - '0' as u32) as u8)
    } else if 'a' <= c && c <= 'f' {
        Some((c as u32 - 'a' as u32) as u8 + 10)
    } else {
        None
    }
}

/// A sequence with a character outside the digit set at any position spells
/// no byte sequence.
proof fn lemma_unhex_none_at(seg: Seq<char>, i: int)
    requires
        0 <= i < seg.len(),
        !is_hex_char(seg[i]),
    ensures
        unhex_chars(seg) is None,
    decreases seg.len(),
{
    if seg.len() % 2 == 0 && i < seg.len() - 2 {
        lemma_unhex_none_at(seg.take(seg.len() - 2), i);
    }
}

/// Relies on `String::from_utf8`: it succeeds exactly on input that is valid
/// UTF-8, and then returns the string whose bytes are that input.
#[verifier::external_body]
fn utf8_to_string(bytes: Vec<u8>) -> (r: Option<String>)
    ensures
        r matches Some(t) ==> encode_utf8(t@) == bytes@,
        r is Some <==> valid_utf8(bytes@),
{
    String::from_utf8(bytes).ok()
}

/// Decode a path segment back to the string it encodes; `None` for a segment
/// that `encode` could not have produced.
pub fn decode(seg: &str) -> (r: Option<String>)
    ensures
        r matches Some(t) ==> spec_decode(seg@) == Some(t@),
        r is None ==> spec_decode(seg@) is None,
{
    let n = seg.unicode_len();
    if n % 2 != 0 {
        return None;
    }
    let mut bytes: Vec<u8> = Vec::new();
    let mut i: usize = 0;
    while i < n
        invariant
            n == seg@.len(),
            n % 2 == 0,
            i % 2 == 0,
            i <= n,
            unhex_chars(seg@.take(i as int)) == Some(bytes@),
        decreases n - i,
    {
        let c1 = seg.get_char(i);
        let c2 = seg.get_char(i + 1);
        let v1 = match char_nibble(c1) {
            Some(v) => v,
            None => {
                proof {
                    lemma_unhex_none_at(seg@, i as int);
                }
                return None;
            },
        };
        let v2 = match char_nibble(c2) {
            Some(v) => v,
            None => {
                proof {
                    lemma_unhex_none_at(seg@, i + 1);
                }
                return None;
            },
        };
        bytes.push(v1 * 16 + v2);
        proof {
            let t = seg@.take(i + 2);
            assert(t.take(t.len() - 2) =~= seg@.take(i as int));
            assert(t[t.len() - 2] == seg@[i as int]);
            assert(t[t.len() - 1] == seg@[i + 1]);
            assert(unhex_chars(t) == Some(bytes@));
        }
        i = i + 2;
    }
    proof {
        assert(seg@.take(n as int) =~= seg@);
    }
    match utf8_to_string(bytes) {
        Some(t) => {
            proof {
                encode_utf8_decode_utf8(t@);
            }
            Some(t)
        },
        None => None,
    }
}

/// An encoded segment has twice as many characters as the string has bytes.
pub proof fn lemma_hex_chars_len(bytes: Seq<u8>)
    ensures
        hex_chars(bytes).len() == 2 * bytes.len(),
    decreases bytes.len(),
{
    if bytes.len() > 0 {
        lemma_hex_chars_len(bytes.drop_last());
    }
}

/// Spelling a byte sequence in hexadecimal and reading it back yields the
/// same bytes.
pub proof fn lemma_unhex_hex(bytes: Seq<u8>)
    ensures
        unhex_chars(hex_chars(bytes)) == Some(bytes),
    decreases bytes.len(),
{
    lemma_hex_chars_len(bytes);
    if bytes.len() == 0 {
        assert(unhex_chars(hex_chars(bytes)) == Some(bytes));
    } else {
        let h = hex_chars(bytes);
        let prefix = hex_chars(bytes.drop_last());
        lemma_hex_chars_len(bytes.drop_last());
        lemma_unhex_hex(bytes.drop_last());
        assert(h.take(h.len() - 2) =~= prefix);
        assert(h[h.len() - 2] == nibble_char((bytes.last() / 16) as u8));
        assert(h[h.len() - 1] == nibble_char((bytes.last() % 16) as u8));
        assert(bytes.drop_last().push(bytes.last()) =~= bytes);
    }
}

/// Every character of an encoded segment is a lowercase hexadecimal digit:
/// segments never hold separators, null bytes or any other character that
/// some target filesystem reserves.
pub proof fn lemma_hex_chars_safe(bytes: Seq<u8>)
    ensures
        forall|i: int| 0 <= i < hex_chars(bytes).len() ==> is_hex_char(#[trigger] hex_chars(bytes)[i]),
    decreases bytes.len(),
{
    if bytes.len() > 0 {
        lemma_hex_chars_safe(bytes.drop_last());
        let h = hex_chars(bytes);
        let p = hex_chars(bytes.drop_last());
        assert forall|i: int| 0 <= i < h.len() implies is_hex_char(h[i]) by {
            if p.len() <= i {
                assert(h[i] == nibble_char((bytes.last() / 16) as u8) || h[i] == nibble_char(
                    (bytes.last() % 16) as u8,
                ));
            }
        }
    }
}

/// Segments are filesystem-safe: an encoded name consists of lowercase
/// hexadecimal digits alone, so it never holds a path separator.
pub proof fn lemma_encode_safe(s: Seq<char>)
    ensures
        forall|i: int| 0 <= i < spec_encode(s).len() ==> is_hex_char(#[trigger] spec_encode(s)[i]),
        forall|i: int| 0 <= i < spec_encode(s).len() ==> #[trigger] spec_encode(s)[i] != '/',
{
    lemma_hex_chars_safe(encode_utf8(s));
}

/// Round trip: decoding the encoding of any string yields that string back.
pub proof fn lemma_round_trip(s: Seq<char>)
    ensures
        spec_decode(spec_encode(s)) == Some(s),
{
    lemma_unhex_hex(encode_utf8(s));
    encode_utf8_valid_utf8(s);
    encode_utf8_decode_utf8(s);
}

/// Reading a hexadecimal digit character back yields the nibble it spells.
proof fn lemma_nibble_round_trip(c: char)
    requires
        is_hex_char(c),
    ensures
        nibble_val(c) < 16,
        nibble_char(nibble_val(c)) == c,
{
}

/// A sequence of digit characters that spells some bytes is their spelling:
/// reading hexadecimal back and spelling it again changes nothing.
proof fn lemma_hex_unhex(seg: Seq<char>)
    requires
        unhex_chars(seg) is Some,
    ensures
        hex_chars(unhex_chars(seg).unwrap()) == seg,
    decreases seg.len(),
{
    let b = unhex_chars(seg).unwrap();
    if seg.len() == 0 {
        assert(hex_chars(b) =~= seg);
    } else {
        let n = seg.len() as int;
        let prefix = seg.take(n - 2);
        let c1 = seg[n - 2];
        let c2 = seg[n - 1];
        let bp = unhex_chars(prefix).unwrap();
        lemma_hex_unhex(prefix);
        lemma_nibble_round_trip(c1);
        lemma_nibble_round_trip(c2);
        let v1 = nibble_val(c1);
        let v2 = nibble_val(c2);
        let byte = (v1 * 16 + v2) as u8;
        assert(b == bp.push(byte));
        assert(b.drop_last() =~= bp);
        assert(byte / 16 == v1 && byte % 16 == v2) by (nonlinear_arith)
            requires
                v1 < 16,
                v2 < 16,
                byte == v1 * 16 + v2,
        ;
        assert(hex_chars(b) =~= seg);
    }
}

/// The other face of the round trip: decoding guesses nothing, so a segment
/// that decodes at all is exactly the encoding of the string it decodes to.
pub proof fn lemma_decode_only_encodings(seg: Seq<char>, s: Seq<char>)
    requires
        spec_decode(seg) == Some(s),
    ensures
        seg == spec_encode(s),
{
    let b = unhex_chars(seg).unwrap();
    lemma_hex_unhex(seg);
    decode_utf8_encode_utf8(b);
}

/// The codec is injective: no two distinct strings share a segment.
pub proof fn lemma_encode_injective(s1: Seq<char>, s2: Seq<char>)
    requires
        spec_encode(s1) == spec_encode(s2),
    ensures
        s1 == s2,
{
    lemma_round_trip(s1);
    lemma_round_trip(s2);
}

} // verus!
