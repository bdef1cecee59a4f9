//! Reading bytes and text: UTF-8 decoding, blank-line detection and the
//! JSON-text check, each resting on one library function.

use vstd::prelude::*;
use vstd::utf8::{decode_utf8, valid_utf8};

verus! {

/// Unicode `White_Space`: the characters `char::is_whitespace` accepts
/// and `str::trim` removes.
pub open spec fn is_unicode_ws(c: char) -> bool {
    let u = c as u32;
    ||| 9 <= u <= 13
    ||| u == 32
    ||| u == 0x85
    ||| u == 0xA0
    ||| u == 0x1680
    ||| 0x2000 <= u <= 0x200A
    ||| u == 0x2028
    ||| u == 0x2029
    ||| u == 0x202F
    ||| u == 0x205F
    ||| u == 0x3000
}

/// Every character of the text is whitespace (true of the empty text).
pub open spec fn all_whitespace(s: Seq<char>) -> bool {
    forall|i: int| 0 <= i < s.len() ==> #[trigger] is_unicode_ws(s[i])
}

/// `t` is `s` without its leading and trailing whitespace: the part of `s`
/// from its first to its last non-whitespace character, or empty.
pub open spec fn is_trim_of(s: Seq<char>, t: Seq<char>) -> bool {
    exists|i: int, j: int|
        #![trigger s.subrange(i, j)]
        0 <= i <= j <= s.len() && t == s.subrange(i, j) && (forall|k: int|
            0 <= k < i ==> #[trigger] is_unicode_ws(s[k])) && (forall|k: int|
            j <= k < s.len() ==> #[trigger] is_unicode_ws(s[k])) && (i < j ==> !is_unicode_ws(s[i])
            && !is_unicode_ws(s[j - 1]))
}

/// What `String::from_utf8_lossy` reads from bytes: invalid sequences are
/// replaced by U+FFFD.
pub uninterp spec fn lossy_utf8(b: Seq<u8>) -> Seq<char>;

/// Whether `serde_json` reads the bytes as one JSON text (a
/// `serde_json::Value`, surrounded by nothing but whitespace).
pub uninterp spec fn is_json_text(b: Seq<u8>) -> bool;

/// Calls `str::trim`. Claimed, as std documents: the result is the text
/// with leading and trailing Unicode `White_Space` removed.
#[verifier::external_body]
fn trim_str(s: &str) -> (r: &str)
    ensures
        is_trim_of(s@, r@),
{
    s.trim()
}

/// Calls `std::str::from_utf8` and copies the text out. Claimed, as std
/// documents: it succeeds exactly on valid UTF-8, and then the text is the
/// decoded characters.
#[verifier::external_body]
fn from_utf8_text(v: &[u8]) -> (r: Option<String>)
    ensures
        r is Some <==> valid_utf8(v@),
        r matches Some(s) ==> s@ == decode_utf8(v@),
{
    std::str::from_utf8(v).ok().map(|s| s.to_owned())
}

/// Calls `String::from_utf8_lossy`. Claimed: the result is named by
/// `lossy_utf8`, and on valid UTF-8 it is the decoded text, as std documents.
#[verifier::external_body]
fn from_utf8_lossy_text(v: &[u8]) -> (r: String)
    ensures
        r@ == lossy_utf8(v@),
        valid_utf8(v@) ==> r@ == decode_utf8(v@),
{
    String::from_utf8_lossy(v).into_owned()
}

/// Calls `serde_json::from_slice::<serde_json::Value>` and reports whether
/// it succeeded. Claimed: the answer is named by `is_json_text` of the bytes,
/// and empty input is refused (the parser finds no value to read).
#[verifier::external_body]
fn json_parses(v: &[u8]) -> (r: bool)
    ensures
        r == is_json_text(v@),
        v@.len() == 0 ==> !r,
{
    serde_json::from_slice::<serde_json::Value>(v).is_ok()
}

/// A line that holds nothing but whitespace is blank.
pub fn is_blank(text: &str) -> (r: bool)
    ensures
        r == all_whitespace(text@),
{
    let t = trim_str(text);
    let r = t.is_empty();
    proof {
        let s = text@;
        let (i, j) = choose|i: int, j: int|
            #![trigger s.subrange(i, j)]
            0 <= i <= j <= s.len() && t@ == s.subrange(i, j) && (forall|k: int|
                0 <= k < i ==> #[trigger] is_unicode_ws(s[k])) && (forall|k: int|
                j <= k < s.len() ==> #[trigger] is_unicode_ws(s[k])) && (i < j ==> !is_unicode_ws(
                s[i]) && !is_unicode_ws(s[j - 1]));
        if i < j {
            assert(t@.len() > 0);
            assert(!is_unicode_ws(s[i]));
        } else {
            assert(t@.len() == 0);
            assert forall|k: int| 0 <= k < s.len() implies #[trigger] is_unicode_ws(s[k]) by {
                if k < i {
                } else {
                    assert(j <= k);
                }
            }
        }
    }
    r
}

/// The UTF-8 text of the bytes, or the empty text when they are not UTF-8.
pub fn utf8_or_empty(v: &[u8]) -> (r: String)
    ensures
        valid_utf8(v@) ==> r@ == decode_utf8(v@),
        !valid_utf8(v@) ==> r@ == Seq::<char>::empty(),
{
    match from_utf8_text(v) {
        Some(s) => s,
        None => String::new(),
    }
}

/// The session id a callback passes: absent (a null pointer) and
/// non-UTF-8 ids both read as the empty text.
pub open spec fn session_id_spec(sid: Option<Seq<u8>>) -> Seq<char> {
    match sid {
        Some(b) => if valid_utf8(b) {
            decode_utf8(b)
        } else {
            Seq::empty()
        },
        None => Seq::empty(),
    }
}

/// Reads a callback's session id from its bytes (without the NUL).
pub fn session_id(sid: Option<&[u8]>) -> (r: String)
    ensures
        r@ == session_id_spec(
            match sid {
                Some(b) => Some(b@),
                None => None,
            },
        ),
{
    match sid {
        Some(b) => utf8_or_empty(b),
        None => String::new(),
    }
}

/// A JSON-carrying callback's bytes, split the way an event line shows
/// them: `(payload, payload_raw)`.
pub open spec fn json_or_raw_spec(b: Seq<u8>) -> (Option<Seq<u8>>, Option<Seq<char>>) {
    if is_json_text(b) {
        (Some(b), None)
    } else {
        (None, Some(lossy_utf8(b)))
    }
}

/// Bytes that are a JSON text become the `payload`; otherwise their lossy
/// UTF-8 reading becomes `payload_raw`. Exactly one of the two is present.
pub fn json_or_raw(b: &[u8]) -> (r: (Option<Vec<u8>>, Option<String>))
    ensures
        (crate::output::opt_bytes(r.0), crate::output::opt_chars(r.1)) == json_or_raw_spec(b@),
        b@.len() == 0 ==> r.0 is None && crate::output::opt_chars(r.1) == Some(Seq::<char>::empty()),
{
    if json_parses(b) {
        (Some(vstd::slice::slice_to_vec(b)), None)
    } else {
        let t = from_utf8_lossy_text(b);
        proof {
            if b@.len() == 0 {
                assert(valid_utf8(b@));
                assert(decode_utf8(b@) =~= Seq::<char>::empty());
            }
        }
        (None, Some(t))
    }
}

/// The bytes again when they are a JSON text.
pub fn json_payload(b: &[u8]) -> (r: Option<Vec<u8>>)
    ensures
        crate::output::opt_bytes(r) == (if is_json_text(b@) {
            Some(b@)
        } else {
            None::<Seq<u8>>
        }),
{
    if json_parses(b) {
        Some(vstd::slice::slice_to_vec(b))
    } else {
        None
    }
}

} // verus!
