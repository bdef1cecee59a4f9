//! Hex text: the nibble table, lowercase encoding and the lenient decoder
//! used for `payload_hex` / `hex` fields.

use vstd::prelude::*;
use vstd::string::StringSliceAdditionalSpecFns;

verus! {

/// Value of one ASCII hex digit (either case), if it is one.
pub open spec fn nibble_value(c: u8) -> Option<u8> {
    if 48 <= c <= 57 {
        Some((c - 48) as u8)
    } else if 97 <= c <= 102 {
        Some((c - 97 + 10) as u8)
    } else if 65 <= c <= 70 {
        Some((c - 65 + 10) as u8)
    } else {
        None
    }
}

/// The lowercase ASCII digit for a value below 16.
pub open spec fn lower_digit(n: int) -> u8 {
    if n < 10 {
        (48 + n) as u8
    } else {
        (87 + n) as u8
    }
}

/// ASCII whitespace as `char::is_ascii_whitespace` defines it:
/// space, tab, line feed, form feed and carriage return.
pub open spec fn is_ascii_ws(b: u8) -> bool {
    b == 32 || b == 9 || b == 10 || b == 12 || b == 13
}

/// The bytes of `s` with every ASCII whitespace byte removed, in order.
pub open spec fn strip_ascii_ws(s: Seq<u8>) -> Seq<u8>
    decreases s.len(),
{
    if s.len() == 0 {
        Seq::empty()
    } else {
        let rest = strip_ascii_ws(s.drop_last());
        if is_ascii_ws(s.last()) {
            rest
        } else {
            rest.push(s.last())
        }
    }
}

/// Every byte of `t` is a hex digit.
pub open spec fn all_hex(t: Seq<u8>) -> bool {
    forall|i: int| 0 <= i < t.len() ==> (#[trigger] nibble_value(t[i])) is Some
}

/// The byte spelled by the digit pair at `2k`, `2k + 1`.
pub open spec fn pair_value(t: Seq<u8>, k: int) -> u8 {
    (nibble_value(t[2 * k]).unwrap() * 16 + nibble_value(t[2 * k + 1]).unwrap()) as u8
}

/// The bytes spelled by an even-length run of hex digits.
pub open spec fn decode_pairs(t: Seq<u8>) -> Seq<u8> {
    Seq::new((t.len() / 2) as nat, |k: int| pair_value(t, k))
}

/// Why a hex text was refused.
#[derive(Clone, Copy, Debug, PartialEq, Eq, Structural)]
pub enum HexError {
    /// After removing whitespace an odd number of bytes is left.
    OddLength,
    /// A byte that is not a hex digit is left after removing whitespace.
    NonHexChars,
}

/// What decoding the UTF-8 bytes `s` of a hex text gives: whitespace is
/// ignored, an odd remainder is refused first, then any non-digit.
pub open spec fn decode_hex_spec(s: Seq<u8>) -> Result<Seq<u8>, HexError> {
    let t = strip_ascii_ws(s);
    if t.len() % 2 != 0 {
        Err(HexError::OddLength)
    } else if !all_hex(t) {
        Err(HexError::NonHexChars)
    } else {
        Ok(decode_pairs(t))
    }
}

/// Lowercase hex spelling of `b`: two digits per byte, high nibble first.
pub open spec fn hex_encode_spec(b: Seq<u8>) -> Seq<u8> {
    Seq::new(
        2 * b.len(),
        |j: int|
            if j % 2 == 0 {
                lower_digit(b[j / 2] as int / 16)
            } else {
                lower_digit(b[j / 2] as int % 16)
            },
    )
}

/// Maps one byte to its hex value: `0-9`, `a-f` and `A-F` are digits.
pub fn hex_nibble(c: u8) -> (r: Option<u8>)
    ensures
        r == nibble_value(c),
        r matches Some(v) ==> v < 16,
{
    if 48 <= c && c <= 57 {
        Some(c - 48)
    } else if 97 <= c && c <= 102 {
        Some(c - 97 + 10)
    } else if 65 <= c && c <= 70 {
        Some(c - 65 + 10)
    } else {
        None
    }
}

/// Removes ASCII whitespace bytes, keeping the others in order.
fn strip_whitespace(s: &[u8]) -> (t: Vec<u8>)
    ensures
        t@ == strip_ascii_ws(s@),
{
    let mut t: Vec<u8> = Vec::new();
    let mut i: usize = 0;
    while i < s.len()
        invariant
            i <= s.len(),
            t@ == strip_ascii_ws(s@.take(i as int)),
        decreases s.len() - i,
    {
        let b = s[i];
        assert(s@.take(i + 1).drop_last() =~= s@.take(i as int));
        if !(b == 32 || b == 9 || b == 10 || b == 12 || b == 13) {
            t.push(b);
        }
        i = i + 1;
    }
    assert(s@.take(s.len() as int) =~= s@);
    t
}

/// Decodes hex text: ASCII whitespace anywhere is ignored, digits may be
/// of either case, and each pair of digits gives one byte.
pub fn decode_hex(hex: &str) -> (r: Result<Vec<u8>, HexError>)
    ensures
        match r {
            Ok(v) => decode_hex_spec(hex.spec_bytes()) == Ok::<Seq<u8>, HexError>(v@),
            Err(e) => decode_hex_spec(hex.spec_bytes()) == Err::<Seq<u8>, HexError>(e),
        },
{
    let t = strip_whitespace(hex.as_bytes());
    if t.len() % 2 != 0 {
        return Err(HexError::OddLength);
    }
    let mut out: Vec<u8> = Vec::new();
    let mut i: usize = 0;
    while i < t.len()
        invariant
            t@ == strip_ascii_ws(hex.spec_bytes()),
            t.len() % 2 == 0,
            i % 2 == 0,
            i <= t.len(),
            out.len() == i / 2,
            forall|j: int| 0 <= j < i ==> (#[trigger] nibble_value(t@[j])) is Some,
            forall|k: int| 0 <= k < i / 2 ==> out@[k] == pair_value(t@, k),
        decreases t.len() - i,
    {
        let hi = hex_nibble(t[i]);
        let lo = hex_nibble(t[i + 1]);
        match (hi, lo) {
            (Some(h), Some(l)) => {
                out.push(h * 16 + l);
            },
            _ => {
                assert(!all_hex(t@)) by {
                    if nibble_value(t@[i as int]) is Some {
                        assert(nibble_value(t@[i + 1]) is None);
                    }
                }
                return Err(HexError::NonHexChars);
            },
        }
        i = i + 2;
    }
    assert(out@ =~= decode_pairs(t@));
    Ok(out)
}

/// Spells `bytes` as lowercase hex, two digits per byte.
pub fn hex_lower(bytes: &[u8]) -> (r: Vec<u8>)
    requires
        2 * bytes.len() <= usize::MAX,
    ensures
        r@ == hex_encode_spec(bytes@),
{
    let mut r: Vec<u8> = Vec::with_capacity(2 * bytes.len());
    let mut i: usize = 0;
    while i < bytes.len()
        invariant
            i <= bytes.len(),
            r.len() == 2 * i,
            forall|j: int| 0 <= j < 2 * i ==> r@[j] == #[trigger] hex_encode_spec(bytes@)[j],
        decreases bytes.len() - i,
    {
        let b = bytes[i];
        let hi = b / 16;
        let lo = b % 16;
        let dh: u8 = if hi < 10 { 48 + hi } else { 87 + hi };
        let dl: u8 = if lo < 10 { 48 + lo } else { 87 + lo };
        r.push(dh);
        r.push(dl);
        i = i + 1;
    }
    assert(r@ =~= hex_encode_spec(bytes@));
    r
}

/// Bytes that are all non-whitespace survive whitespace stripping unchanged.
proof fn lemma_strip_no_ws(s: Seq<u8>)
    requires
        forall|i: int| 0 <= i < s.len() ==> !is_ascii_ws(#[trigger] s[i]),
    ensures
        strip_ascii_ws(s) == s,
    decreases s.len(),
{
    if s.len() > 0 {
        lemma_strip_no_ws(s.drop_last());
        assert(s.drop_last().push(s.last()) =~= s);
    }
}

/// Decoding a lowercase hex spelling gives back the bytes that were spelled:
/// `decode_hex(hex_lower(b)) == Ok(b)` for every byte string `b`.
pub proof fn law_hex_round_trip(b: Seq<u8>)
    ensures
        decode_hex_spec(hex_encode_spec(b)) == Ok::<Seq<u8>, HexError>(b),
{
    let e = hex_encode_spec(b);
    assert forall|i: int| 0 <= i < e.len() implies !is_ascii_ws(#[trigger] e[i])
        && nibble_value(e[i]) is Some by {
        let v = if i % 2 == 0 { b[i / 2] / 16 } else { b[i / 2] % 16 };
        assert(0 <= v < 16);
    }
    lemma_strip_no_ws(e);
    assert(e.len() % 2 == 0);
    assert forall|k: int| 0 <= k < b.len() implies #[trigger] pair_value(e, k) == b[k] by {
        assert((2 * k) / 2 == k);
        assert((2 * k + 1) / 2 == k);
        assert((2 * k) % 2 == 0);
        assert((2 * k + 1) % 2 == 1);
        let x = b[k];
        assert(x / 16 * 16 + x % 16 == x);
    }
    assert(decode_pairs(e) =~= b);
}

proof fn lemma_strip_concat(x: Seq<u8>, y: Seq<u8>)
    ensures
        strip_ascii_ws(x + y) == strip_ascii_ws(x) + strip_ascii_ws(y),
    decreases y.len(),
{
    if y.len() == 0 {
        assert(x + y =~= x);
        assert(strip_ascii_ws(x) + Seq::<u8>::empty() =~= strip_ascii_ws(x));
    } else {
        lemma_strip_concat(x, y.drop_last());
        assert((x + y).drop_last() =~= x + y.drop_last());
        assert((x + y).last() == y.last());
        if !is_ascii_ws(y.last()) {
            assert(strip_ascii_ws(x) + strip_ascii_ws(y.drop_last()).push(y.last()) =~= (
            strip_ascii_ws(x) + strip_ascii_ws(y.drop_last())).push(y.last()));
        }
    }
}

/// ASCII whitespace anywhere in hex text changes nothing: inserting a
/// whitespace byte gives the same bytes, or the same refusal.
pub proof fn law_hex_whitespace_ignored(a: Seq<u8>, ws: u8, b: Seq<u8>)
    requires
        is_ascii_ws(ws),
    ensures
        decode_hex_spec(a + seq![ws] + b) == decode_hex_spec(a + b),
{
    lemma_strip_concat(a + seq![ws], b);
    lemma_strip_concat(a, seq![ws]);
    lemma_strip_concat(a, b);
    let one = seq![ws];
    assert(one.drop_last() =~= Seq::<u8>::empty());
    assert(one.last() == ws);
    assert(strip_ascii_ws(one.drop_last()) == Seq::<u8>::empty());
    assert(strip_ascii_ws(one) == Seq::<u8>::empty());
    assert(strip_ascii_ws(a) + Seq::<u8>::empty() =~= strip_ascii_ws(a));
}

/// Lowercase hex spelling has two digits per byte, every one a hex digit
/// and none an uppercase letter.
pub proof fn law_hex_encoding_shape(b: Seq<u8>)
    ensures
        hex_encode_spec(b).len() == 2 * b.len(),
        forall|j: int|
            0 <= j < 2 * b.len() ==> {
                let c = #[trigger] hex_encode_spec(b)[j];
                (48 <= c <= 57 || 97 <= c <= 102)
            },
{
}

/// Hex spelling is per byte: the hex of consecutive chunks, put together,
/// is the hex of the whole stream.
pub proof fn law_hex_concatenates(a: Seq<u8>, b: Seq<u8>)
    ensures
        hex_encode_spec(a + b) == hex_encode_spec(a) + hex_encode_spec(b),
{
    let l = hex_encode_spec(a + b);
    let r = hex_encode_spec(a) + hex_encode_spec(b);
    assert forall|j: int| 0 <= j < l.len() implies l[j] == r[j] by {
        if j < 2 * a.len() {
            assert((a + b)[j / 2] == a[j / 2]);
        } else {
            let k = j - 2 * a.len();
            assert(j / 2 == a.len() + k / 2);
            assert(j % 2 == k % 2);
            assert((a + b)[j / 2] == b[k / 2]);
        }
    }
    assert(l =~= r);
}

/// The uppercase ASCII digit for a value below 16.
pub open spec fn upper_digit(n: int) -> u8 {
    if n < 10 {
        (48 + n) as u8
    } else {
        (55 + n) as u8
    }
}

/// Uppercase hex spelling of `b`: two digits per byte, high nibble first.
pub open spec fn hex_encode_upper(b: Seq<u8>) -> Seq<u8> {
    Seq::new(
        2 * b.len(),
        |j: int|
            if j % 2 == 0 {
                upper_digit(b[j / 2] as int / 16)
            } else {
                upper_digit(b[j / 2] as int % 16)
            },
    )
}

/// Hex digits are case-insensitive: decoding the uppercase hex spelling of
/// any bytes gives back exactly those bytes (`A`-`F` read as 10-15).
pub proof fn law_hex_uppercase_round_trip(b: Seq<u8>)
    ensures
        decode_hex_spec(hex_encode_upper(b)) == Ok::<Seq<u8>, HexError>(b),
{
    let e = hex_encode_upper(b);
    assert forall|i: int| 0 <= i < e.len() implies !is_ascii_ws(#[trigger] e[i])
        && nibble_value(e[i]) is Some by {
        let v = if i % 2 == 0 { b[i / 2] / 16 } else { b[i / 2] % 16 };
        assert(0 <= v < 16);
    }
    lemma_strip_no_ws(e);
    assert(e.len() % 2 == 0);
    assert forall|k: int| 0 <= k < b.len() implies #[trigger] pair_value(e, k) == b[k] by {
        assert((2 * k) / 2 == k);
        assert((2 * k + 1) / 2 == k);
        assert((2 * k) % 2 == 0);
        assert((2 * k + 1) % 2 == 1);
        let x = b[k];
        assert(x / 16 * 16 + x % 16 == x);
    }
    assert(decode_pairs(e) =~= b);
}

/// Each letter digit reads the same in either case, and `A`-`F` (like
/// `a`-`f`) read as 10-15.
pub proof fn law_hex_digits_case_insensitive(c: u8)
    requires
        65 <= c <= 70,
    ensures
        nibble_value(c) == Some((c - 55) as u8),
        nibble_value((c + 32) as u8) == nibble_value(c),
{
}

} // verus!
