//! Decoding of the raw bytes of a debug-output record into text:
//! cut at the first NUL, decode, drop the trailing line break.

use vstd::prelude::*;
use vstd::utf8::*;

use crate::text::{chars_of, string_from_chars};

verus! {

/// Number of bytes before the first NUL byte of `raw` (all of them when there is none).
pub open spec fn text_len(raw: Seq<u8>) -> nat
    decreases raw.len(),
{
    if raw.len() == 0 || raw[0] == 0 {
        0
    } else {
        1 + text_len(raw.skip(1))
    }
}

/// The bytes of `raw` before its first NUL byte.
pub open spec fn text_bytes(raw: Seq<u8>) -> Seq<u8> {
    raw.take(text_len(raw) as int)
}

/// `s` without the `'\r'` and `'\n'` characters at its end.
pub open spec fn trim_line_end_spec(s: Seq<char>) -> Seq<char>
    decreases s.len(),
{
    if s.len() > 0 && (s.last() == '\r' || s.last() == '\n') {
        trim_line_end_spec(s.drop_last())
    } else {
        s
    }
}

/// What `String::from_utf8_lossy` gives for `bytes`: the text they encode, each
/// ill-formed part replaced by U+FFFD.
pub uninterp spec fn utf8_lossy(bytes: Seq<u8>) -> Seq<char>;

/// The text that `decode_utf8_message` gives for the raw bytes `raw`.
pub open spec fn decoded_message(raw: Seq<u8>) -> Seq<char> {
    trim_line_end_spec(utf8_lossy(text_bytes(raw)))
}

proof fn lemma_text_len(raw: Seq<u8>, i: int)
    requires
        0 <= i <= raw.len(),
        forall|k: int| 0 <= k < i ==> raw[k] != 0,
    ensures
        text_len(raw) == i + text_len(raw.skip(i)),
    decreases i,
{
    if i > 0 {
        lemma_text_len(raw, i - 1);
        let r = raw.skip(i - 1);
        assert(r[0] == raw[i - 1]);
        assert(r.skip(1) =~= raw.skip(i));
    } else {
        assert(raw.skip(0) =~= raw);
    }
}

/// Position of the first NUL byte of `raw`, or its length when it has none.
pub fn text_end(raw: &[u8]) -> (n: usize)
    ensures
        n == text_len(raw@),
        n <= raw@.len(),
{
    let len = raw.len();
    let mut i: usize = 0;
    while i < len && raw[i] != 0
        invariant
            len == raw@.len(),
            i <= len,
            forall|k: int| 0 <= k < i ==> raw@[k] != 0,
        decreases len - i,
    {
        i = i + 1;
    }
    proof {
        lemma_text_len(raw@, i as int);
        let r = raw@.skip(i as int);
        if i < len {
            assert(r[0] == 0);
        }
        assert(text_len(r) == 0);
    }
    i
}

/// The bytes of `raw` before its first NUL byte.
pub fn message_bytes(raw: &[u8]) -> (b: &[u8])
    ensures
        b@ == text_bytes(raw@),
{
    let n = text_end(raw);
    let (head, _) = raw.split_at(n);
    assert(head@ =~= raw@.take(n as int));
    head
}

/// Decodes bytes as UTF-8, replacing ill-formed parts, through
/// `String::from_utf8_lossy` of std. The result is named by `utf8_lossy`; on
/// well-formed UTF-8 the documentation of std says it is the text the bytes encode.
#[verifier::external_body]
fn decode_lossy(bytes: &[u8]) -> (s: String)
    ensures
        s@ == utf8_lossy(bytes@),
        valid_utf8(bytes@) ==> s@ == decode_utf8(bytes@),
{
    String::from_utf8_lossy(bytes).into_owned()
}

/// What `String::from_utf16_lossy` gives for `units`: the text they encode in
/// UTF-16, each unpaired surrogate replaced by U+FFFD.
pub uninterp spec fn utf16_lossy(units: Seq<u16>) -> Seq<char>;

/// Decodes UTF-16 code units, replacing unpaired surrogates, through
/// `String::from_utf16_lossy` of std; the result is named by `utf16_lossy`.
#[verifier::external_body]
fn decode_utf16_lossy(units: &[u16]) -> (s: String)
    ensures
        s@ == utf16_lossy(units@),
{
    String::from_utf16_lossy(units)
}

/// The text of an ANSI message on Windows, given its bytes and the UTF-16
/// units that the code-page conversion gave (`None` when it reported none):
/// empty for no bytes, the converted text when there is one, else the bytes
/// read as UTF-8 with ill-formed parts replaced.
pub fn ansi_decoded(bytes: &[u8], converted: Option<&[u16]>) -> (s: String)
    ensures
        bytes@.len() == 0 ==> s@ == Seq::<char>::empty(),
        bytes@.len() > 0 ==> s@ == match converted {
            Some(w) => utf16_lossy(w@),
            None => utf8_lossy(bytes@),
        },
{
    if bytes.len() == 0 {
        return String::new();
    }
    match converted {
        Some(w) => decode_utf16_lossy(w),
        None => decode_lossy(bytes),
    }
}

/// `s` without the `'\r'` and `'\n'` characters at its end.
pub fn trim_line_end(s: &str) -> (r: String)
    ensures
        r@ == trim_line_end_spec(s@),
{
    let mut v = chars_of(s);
    while v.len() > 0 && (v[v.len() - 1] == '\r' || v[v.len() - 1] == '\n')
        invariant
            trim_line_end_spec(v@) == trim_line_end_spec(s@),
        decreases v.len(),
    {
        let ghost before = v@;
        v.pop();
        assert(v@ =~= before.drop_last());
    }
    string_from_chars(&v)
}

/// Decodes a raw message: cut at the first NUL byte, decode as UTF-8 (ill-formed
/// parts replaced), then drop the trailing line break. This is how platforms
/// other than Windows decode a message; on Windows the program decodes the
/// bytes of `message_bytes` in the ANSI code page (see `ansi_decoded`) and
/// passes the text to `trim_line_end`.
pub fn decode_utf8_message(raw: &[u8]) -> (s: String)
    ensures
        s@ == decoded_message(raw@),
        is_ascii_bytes(text_bytes(raw@)) ==> s@ == trim_line_end_spec(ascii_text(text_bytes(raw@))),
{
    let bytes = message_bytes(raw);
    let decoded = decode_lossy(bytes);
    proof {
        if is_ascii_bytes(bytes@) {
            lemma_ascii_is_utf8(bytes@);
        }
    }
    trim_line_end(decoded.as_str())
}

proof fn lemma_text_len_stops_at_nul(raw: Seq<u8>)
    ensures
        text_len(raw) <= raw.len(),
        text_len(raw) < raw.len() ==> raw[text_len(raw) as int] == 0,
        forall|i: int| 0 <= i < text_len(raw) ==> #[trigger] raw[i] != 0,
    decreases raw.len(),
{
    if raw.len() > 0 && raw[0] != 0 {
        let r = raw.skip(1);
        lemma_text_len_stops_at_nul(r);
        assert forall|i: int| 0 <= i < text_len(raw) implies #[trigger] raw[i] != 0 by {
            if i > 0 {
                assert(raw[i] == r[i - 1]);
            }
        }
        if text_len(raw) < raw.len() {
            assert(raw[text_len(raw) as int] == r[text_len(r) as int]);
        }
    }
}

/// The text of a record is all of its bytes before the first NUL: a prefix of
/// the record without NUL that is either the whole record or followed by a NUL.
pub proof fn law_message_bytes_are_all_before_first_nul(raw: Seq<u8>)
    ensures
        text_bytes(raw).len() <= raw.len(),
        text_bytes(raw) == raw.take(text_bytes(raw).len() as int),
        forall|i: int| 0 <= i < text_bytes(raw).len() ==> #[trigger] raw[i] != 0,
        text_bytes(raw).len() < raw.len() ==> raw[text_bytes(raw).len() as int] == 0,
{
    lemma_text_len_stops_at_nul(raw);
}

/// The text of a record holds no NUL byte.
pub proof fn law_message_bytes_hold_no_nul(raw: Seq<u8>)
    ensures
        text_len(raw) <= raw.len(),
        forall|i: int| 0 <= i < text_bytes(raw).len() ==> #[trigger] text_bytes(raw)[i] != 0,
    decreases raw.len(),
{
    if raw.len() > 0 && raw[0] != 0 {
        let r = raw.skip(1);
        law_message_bytes_hold_no_nul(r);
        assert forall|i: int| 0 <= i < text_bytes(raw).len() implies #[trigger] text_bytes(raw)[i]
            != 0 by {
            if i > 0 {
                assert(text_bytes(raw)[i] == text_bytes(r)[i - 1]);
            }
        }
    }
}

/// A decoded message never ends in a line break, only line breaks are removed
/// from its end, and decoding leaves a text without one as it is.
pub proof fn law_no_trailing_line_break(s: Seq<char>)
    ensures
        trim_line_end_spec(s).len() > 0 ==> trim_line_end_spec(s).last() != '\r'
            && trim_line_end_spec(s).last() != '\n',
        trim_line_end_spec(trim_line_end_spec(s)) == trim_line_end_spec(s),
        trim_line_end_spec(s).len() <= s.len(),
        trim_line_end_spec(s) == s.take(trim_line_end_spec(s).len() as int),
        forall|i: int|
            trim_line_end_spec(s).len() <= i < s.len() ==> #[trigger] s[i] == '\r' || s[i] == '\n',
    decreases s.len(),
{
    if s.len() > 0 && (s.last() == '\r' || s.last() == '\n') {
        law_no_trailing_line_break(s.drop_last());
        let t = trim_line_end_spec(s.drop_last());
        assert(s.drop_last().take(t.len() as int) =~= s.take(t.len() as int));
        assert forall|i: int| t.len() <= i < s.len() implies #[trigger] s[i] == '\r' || s[i] == '\n' by {
            if i < s.len() - 1 {
                assert(s[i] == s.drop_last()[i]);
            }
        }
    } else {
        assert(s.take(s.len() as int) =~= s);
    }
}

/// Every byte is an ASCII code (below 0x80).
pub open spec fn is_ascii_bytes(bytes: Seq<u8>) -> bool {
    forall|i: int| 0 <= i < bytes.len() ==> #[trigger] bytes[i] < 0x80
}

/// ASCII bytes read as the characters they code.
pub open spec fn ascii_text(bytes: Seq<u8>) -> Seq<char> {
    bytes.map_values(|b: u8| b as char)
}

/// ASCII bytes are well-formed UTF-8 that encodes the characters they code.
pub proof fn lemma_ascii_is_utf8(bytes: Seq<u8>)
    requires
        is_ascii_bytes(bytes),
    ensures
        valid_utf8(bytes),
        decode_utf8(bytes) == ascii_text(bytes),
{
    let c = ascii_text(bytes);
    assert forall|i: int| 0 <= i < c.len() implies '\0' <= #[trigger] c[i] <= '\u{7f}' by {
        let b = bytes[i];
        assert(c[i] == b as char);
        assert((b as char) as u32 == b as u32);
    }
    is_ascii_chars_encode_utf8(c);
    assert forall|i: int| 0 <= i < bytes.len() implies encode_utf8(c)[i] == bytes[i] by {
        let b = bytes[i];
        assert(c[i] as u8 == b);
    }
    assert(encode_utf8(c) =~= bytes);
    encode_utf8_valid_utf8(c);
    encode_utf8_decode_utf8(c);
}

} // verus!
