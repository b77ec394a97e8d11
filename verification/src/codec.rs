//! Identifier and key codecs.
//!
//! Namespace and bundle identifiers are 128-bit values rendered as 32
//! lowercase hexadecimal digits; the codec here is verified in both
//! directions. Worker-data keys cross the command line either as raw text or
//! base64-encoded; the preparation of both forms is verified against the
//! named results of the base64 and UTF-8 codecs.

use vstd::prelude::*;
use vstd::string::StrSliceExecFns;
use vstd::string::StringSliceAdditionalSpecFns;

verus! {

/// The lowercase hexadecimal digit (as an ASCII byte) for a value below 16.
pub open spec fn hex_digit(n: u8) -> u8 {
    if n < 10 {
        (48 + n) as u8
    } else {
        (87 + n) as u8
    }
}

/// Whether an ASCII byte is a lowercase hexadecimal digit.
pub open spec fn is_hex_digit(b: u8) -> bool {
    (48 <= b <= 57) || (97 <= b <= 102)
}

/// The value of a lowercase hexadecimal digit byte.
pub open spec fn hex_value(b: u8) -> u8 {
    if 48 <= b <= 57 {
        (b - 48) as u8
    } else {
        (b - 87) as u8
    }
}

/// The hexadecimal rendering of a byte string: two digits per byte, high
/// nibble first.
pub open spec fn spec_encode_id128(id: Seq<u8>) -> Seq<u8> {
    Seq::new(
        2 * id.len(),
        |i: int|
            if i % 2 == 0 {
                hex_digit(id[i / 2] / 16)
            } else {
                hex_digit(id[i / 2] % 16)
            },
    )
}

/// The byte string a hexadecimal rendering denotes.
pub open spec fn spec_decode_id128(s: Seq<u8>) -> Seq<u8> {
    Seq::new(s.len() / 2, |i: int| (16 * hex_value(s[2 * i]) + hex_value(s[2 * i + 1])) as u8)
}

/// Renders a 128-bit identifier as 32 lowercase hexadecimal digits.
pub fn encode_id128(id: &Vec<u8>) -> (r: Vec<u8>)
    requires
        id@.len() == 16,
    ensures
        r@ == spec_encode_id128(id@),
        r@.len() == 32,
{
    let mut out: Vec<u8> = Vec::new();
    let mut i: usize = 0;
    while i < id.len()
        invariant
            id@.len() == 16,
            i <= 16,
            out@.len() == 2 * i,
            forall|j: int| 0 <= j < 2 * i ==> out@[j] == spec_encode_id128(id@)[j],
        decreases id@.len() - i,
    {
        let b: u8 = id[i];
        out.push(if b / 16 < 10 {
            48 + b / 16
        } else {
            87 + b / 16
        });
        out.push(if b % 16 < 10 {
            48 + b % 16
        } else {
            87 + b % 16
        });
        proof {
            assert((2 * i as int) % 2 == 0);
            assert((2 * i as int) / 2 == i as int);
            assert((2 * i as int + 1) % 2 == 1);
            assert((2 * i as int + 1) / 2 == i as int);
        }
        i = i + 1;
    }
    proof {
        assert(out@ =~= spec_encode_id128(id@));
    }
    out
}

/// Parses a 128-bit identifier: accepts exactly 32 lowercase hexadecimal
/// digits and returns the 16 bytes they denote.
pub fn decode_id128(s: &Vec<u8>) -> (r: Option<Vec<u8>>)
    ensures
        r is Some <==> (s@.len() == 32 && (forall|i: int|
            0 <= i < 32 ==> is_hex_digit(#[trigger] s@[i]))),
        r matches Some(b) ==> b@ == spec_decode_id128(s@) && b@.len() == 16,
{
    if s.len() != 32 {
        return None;
    }
    let mut out: Vec<u8> = Vec::new();
    let mut i: usize = 0;
    while i < 16
        invariant
            s@.len() == 32,
            i <= 16,
            out@.len() == i,
            forall|j: int| 0 <= j < 2 * i ==> is_hex_digit(#[trigger] s@[j]),
            forall|j: int| 0 <= j < i ==> out@[j] == spec_decode_id128(s@)[j],
        decreases 16 - i,
    {
        let hi: u8 = s[2 * i];
        let lo: u8 = s[2 * i + 1];
        let hi_ok: bool = (48 <= hi && hi <= 57) || (97 <= hi && hi <= 102);
        let lo_ok: bool = (48 <= lo && lo <= 57) || (97 <= lo && lo <= 102);
        if !hi_ok || !lo_ok {
            return None;
        }
        let hv: u8 = if hi <= 57 {
            hi - 48
        } else {
            hi - 87
        };
        let lv: u8 = if lo <= 57 {
            lo - 48
        } else {
            lo - 87
        };
        out.push(16 * hv + lv);
        i = i + 1;
    }
    proof {
        assert(out@ =~= spec_decode_id128(s@));
    }
    Some(out)
}

/// Round trip: decoding an identifier's rendering restores the identifier,
/// and the rendering is always 32 valid lowercase hexadecimal digits.
pub proof fn lemma_id128_round_trip(id: Seq<u8>)
    requires
        id.len() == 16,
    ensures
        spec_decode_id128(spec_encode_id128(id)) =~= id,
        spec_encode_id128(id).len() == 32,
        forall|i: int| 0 <= i < 32 ==> is_hex_digit(#[trigger] spec_encode_id128(id)[i]),
{
    let enc = spec_encode_id128(id);
    assert forall|i: int| 0 <= i < 32 implies is_hex_digit(#[trigger] enc[i]) by {
        if i % 2 == 0 {
            assert(enc[i] == hex_digit(id[i / 2] / 16));
        } else {
            assert(enc[i] == hex_digit(id[i / 2] % 16));
        }
    }
    assert forall|i: int| 0 <= i < 16 implies spec_decode_id128(enc)[i] == id[i] by {
        assert((2 * i) % 2 == 0);
        assert((2 * i) / 2 == i);
        assert((2 * i + 1) % 2 == 1);
        assert((2 * i + 1) / 2 == i);
        assert(enc[2 * i] == hex_digit(id[i] / 16));
        assert(enc[2 * i + 1] == hex_digit(id[i] % 16));
        assert(hex_value(hex_digit(id[i] / 16)) == id[i] / 16);
        assert(hex_value(hex_digit(id[i] % 16)) == id[i] % 16);
    }
}

/// The base64 rendering of a byte string; a function of the bytes alone.
pub uninterp spec fn base64_encoding(b: Seq<u8>) -> Seq<char>;

/// The byte string a base64 text denotes, if it is well-formed; a function
/// of the text alone.
pub uninterp spec fn base64_decoding(s: Seq<char>) -> Option<Seq<u8>>;

/// The text a byte string denotes when it is valid UTF-8; a function of the
/// bytes alone.
pub uninterp spec fn utf8_decoding(b: Seq<u8>) -> Option<Seq<char>>;

/// Relies on `base64::encode`: the standard base64 rendering of the bytes,
/// empty for an empty input.
#[verifier::external_body]
fn base64_encode_raw(b: &Vec<u8>) -> (r: String)
    ensures
        r@ == base64_encoding(b@),
        b@.len() == 0 ==> r@.len() == 0,
{
    base64::encode(b)
}

/// Relies on `base64::decode`: returns the denoted bytes exactly when the
/// text is well-formed standard base64.
#[verifier::external_body]
fn base64_decode_raw(s: &str) -> (r: Option<Vec<u8>>)
    ensures
        r is Some <==> base64_decoding(s@) is Some,
        r matches Some(v) ==> Some(v@) == base64_decoding(s@),
{
    match base64::decode(s) {
        Ok(v) => Some(v),
        Err(_) => None,
    }
}

/// Relies on `String::from_utf8`: returns the denoted text exactly when the
/// bytes are valid UTF-8.
#[verifier::external_body]
fn string_from_utf8(b: Vec<u8>) -> (r: Option<String>)
    ensures
        r is Some <==> utf8_decoding(b@) is Some,
        r matches Some(t) ==> Some(t@) == utf8_decoding(b@),
{
    match String::from_utf8(b) {
        Ok(t) => Some(t),
        Err(_) => None,
    }
}

/// Prepares a worker-data key given on the command line: the raw bytes of
/// the text, or - when flagged as base64 - the bytes its base64 form
/// denotes, rejecting ill-formed base64.
pub fn decode_key(text: &str, base64_encoded: bool) -> (r: Option<Vec<u8>>)
    ensures
        !base64_encoded ==> (r matches Some(v) && v@ == text.spec_bytes()),
        base64_encoded ==> ((r is Some <==> base64_decoding(text@) is Some) && (r matches Some(v)
            ==> Some(v@) == base64_decoding(text@))),
{
    if base64_encoded {
        base64_decode_raw(text)
    } else {
        Some(text.as_bytes_vec())
    }
}

/// Renders a worker-data key for display: its base64 form when flagged, else
/// the text the key's bytes denote, rejecting keys that are not valid UTF-8.
pub fn render_key(key: Vec<u8>, base64_encoded: bool) -> (r: Option<String>)
    ensures
        base64_encoded ==> (r matches Some(t) && t@ == base64_encoding(key@)),
        !base64_encoded ==> ((r is Some <==> utf8_decoding(key@) is Some) && (r matches Some(t)
            ==> Some(t@) == utf8_decoding(key@))),
{
    if base64_encoded {
        Some(base64_encode_raw(&key))
    } else {
        string_from_utf8(key)
    }
}

} // verus!
