use vstd::prelude::*;
use vstd::utf8::*;
use vstd::string::*;

use crate::decimal::{append_decimal, decimal};

verus! {

/// The bytes that `ring_sha256_to_str` keeps of a text: everything between the
/// eleven-byte `Tag(SHA256:` prefix and the closing byte, or nothing at all when
/// the text is shorter than twelve bytes.
pub open spec fn inner_digest_bytes(bytes: Seq<u8>) -> Seq<u8> {
    if bytes.len() >= 12 {
        bytes.subrange(11, bytes.len() - 1)
    } else {
        Seq::empty()
    }
}

/// The same cut, on characters.
pub open spec fn inner_digest_chars(chars: Seq<char>) -> Seq<char> {
    if chars.len() >= 12 {
        chars.subrange(11, chars.len() - 1)
    } else {
        Seq::empty()
    }
}

/// Cutting at byte `index` is possible in `s` (the slice would not panic).
pub open spec fn cuts_cleanly(s: &str, index: int) -> bool {
    is_char_boundary(s.spec_bytes(), index)
}

/// Text of an ASCII string is determined by its bytes.
proof fn lemma_ascii_bytes_determine_chars(whole: Seq<char>, part: Seq<char>, lo: int, hi: int)
    requires
        is_ascii_chars(whole),
        0 <= lo <= hi <= whole.len(),
        encode_utf8(part) == encode_utf8(whole).subrange(lo, hi),
    ensures
        part == whole.subrange(lo, hi),
{
    broadcast use is_ascii_chars_encode_utf8, encode_utf8_decode_utf8;
    let sub = whole.subrange(lo, hi);
    assert(is_ascii_chars(sub));
    assert(encode_utf8(sub) =~= encode_utf8(whole).subrange(lo, hi));
    assert(part == decode_utf8(encode_utf8(part)));
    assert(sub == decode_utf8(encode_utf8(sub)));
}

/// Every byte position of an ASCII text is a place where it can be cut.
proof fn lemma_ascii_cuts(s: &str, i: int)
    requires
        is_ascii(s),
        0 <= i <= s.spec_bytes().len(),
    ensures
        cuts_cleanly(s, i),
{
    broadcast use encode_utf8_valid_utf8, is_ascii_chars_encode_utf8;

    let bytes = s.spec_bytes();
    assert(valid_utf8(bytes));
    if i == bytes.len() {
        is_char_boundary_start_end_of_seq(bytes);
    } else {
        is_char_boundary_iff_not_is_continuation_byte(bytes, i);
        assert(bytes[i] == s@[i] as u8);
    }
}

/// Strips the `Tag(SHA256:` prefix and the closing `)` from the debug text of an
/// HMAC tag, leaving its hex digits. Texts shorter than twelve bytes give the
/// empty string. Lengths and cuts are in bytes, as `str` slicing counts them.
pub fn ring_sha256_to_str(value: &str) -> (res: &str)
    requires
        value.spec_bytes().len() <= usize::MAX,
        value.spec_bytes().len() >= 12 ==> is_ascii(value) || (cuts_cleanly(value, 11)
            && cuts_cleanly(value, value.spec_bytes().len() - 1)),
    ensures
        res.spec_bytes() == inner_digest_bytes(value.spec_bytes()),
        is_ascii(value) ==> res@ == inner_digest_chars(value@),
        value.spec_bytes().len() >= 12 ==> res.spec_bytes() == value.spec_bytes().subrange(
            11,
            value.spec_bytes().len() - 1,
        ),
        value.spec_bytes().len() < 12 ==> res.spec_bytes().len() == 0 && res@.len() == 0,
        is_ascii(value) && value@.len() >= 12 ==> res@ == value@.subrange(11, value@.len() - 1),
{
    broadcast use encode_utf8_valid_utf8, is_ascii_spec_bytes;

    let ghost bytes = value.spec_bytes();
    if value.len() >= 12 {
        proof {
            if is_ascii(value) {
                lemma_ascii_cuts(value, 11);
                lemma_ascii_cuts(value, bytes.len() - 1);
            }
        }
        let (_, rest) = value.split_at(11);
        let ghost rest_bytes = rest.spec_bytes();
        proof {
            // The second cut, at byte `n - 1` of `value`, is byte `n - 12` of the rest.
            let n = bytes.len() as int;
            assert(valid_utf8(encode_utf8(value@)));
            assert(rest_bytes =~= bytes.subrange(11, n));
            valid_utf8_split(bytes, 11);
            is_char_boundary_iff_not_is_continuation_byte(bytes, n - 1);
            is_char_boundary_iff_not_is_continuation_byte(rest_bytes, n - 12);
        }
        let (mid, _) = rest.split_at(value.len() - 12);
        proof {
            assert(mid.spec_bytes() =~= inner_digest_bytes(bytes));
            if is_ascii(value) {
                lemma_ascii_bytes_determine_chars(value@, mid@, 11, value@.len() - 1);
            }
        }
        mid
    } else {
        let empty = "";
        proof {
            reveal_strlit("");
            assert(empty@ =~= Seq::<char>::empty());
            assert(empty.spec_bytes() =~= Seq::<u8>::empty());
        }
        empty
    }
}

/// What `base64_url::decode` gives for a text: the decoded bytes, or `None` where
/// the text is not URL-safe Base64 without padding.
pub uninterp spec fn base64_url_decoded(text: Seq<char>) -> Option<Seq<u8>>;

/// The HMAC-SHA256 tag that *ring* computes for a key and a message.
pub uninterp spec fn hmac_sha256(key: Seq<u8>, message: Seq<u8>) -> Seq<u8>;

/// Lower-case hex digit of a value below sixteen.
pub open spec fn hex_digit(d: int) -> char {
    if d < 10 {
        (d + 48) as char
    } else {
        (d + 87) as char
    }
}

/// The value of a hex digit character (`0`-`9`, `a`-`f`).
pub open spec fn hex_char_value(c: char) -> int {
    if c <= '9' {
        c as int - '0' as int
    } else {
        c as int - 'a' as int + 10
    }
}

/// Two lower-case hex digits per byte, most significant first (`{:02x}`).
pub open spec fn lower_hex(bytes: Seq<u8>) -> Seq<char>
    decreases bytes.len(),
{
    if bytes.len() == 0 {
        Seq::empty()
    } else {
        lower_hex(bytes.drop_last()) + seq![
            hex_digit(bytes.last() as int / 16),
            hex_digit(bytes.last() as int % 16),
        ]
    }
}

/// The text `Tag(SHA256:` with which *ring* starts the debug form of a tag.
pub open spec fn sha256_tag_prefix() -> Seq<char> {
    seq!['T', 'a', 'g', '(', 'S', 'H', 'A', '2', '5', '6', ':']
}

/// The debug form `{:?}` of an HMAC-SHA256 tag of *ring*: `Tag(SHA256:`, the
/// tag's bytes in lower-case hex, `)`.
pub open spec fn sha256_tag_debug_text(tag: Seq<u8>) -> Seq<char> {
    sha256_tag_prefix() + lower_hex(tag) + seq![')']
}

/// Largest byte count that SHA-256 hashes in *ring*: the bit count must fit in
/// a `u64`.
pub open spec fn sha256_input_limit() -> int {
    0x2000_0000_0000_0000
}

/// Calls `base64_url::decode`. Claims that the result is the named decoding of
/// the text's characters, `None` exactly where the crate returns an error.
#[verifier::external_body]
fn base64_url_decode(text: &str) -> (res: Option<Vec<u8>>)
    ensures
        match res {
            Some(bytes) => base64_url_decoded(text@) == Some(bytes@),
            None => base64_url_decoded(text@) is None,
        },
{
    base64_url::decode(text).ok()
}

/// Calls `ring::hmac::Key::new` with `HMAC_SHA256`, `ring::hmac::sign`, and
/// formats the tag with `{:?}`. Claims that the text is *ring*'s debug form of
/// the named HMAC-SHA256 tag, whose length is the 32 bytes of a SHA-256 output.
/// *ring* panics where the key or the inner hash input (a 64-byte block and the
/// message) reaches `sha256_input_limit` bytes, so those inputs are excluded.
#[verifier::external_body]
fn hmac_sha256_debug_text(key: &[u8], message: &[u8]) -> (res: String)
    requires
        key@.len() < sha256_input_limit(),
        message@.len() + 64 < sha256_input_limit(),
    ensures
        res@ == sha256_tag_debug_text(hmac_sha256(key@, message@)),
        res@.len() == 76,
{
    let key = ring::hmac::Key::new(ring::hmac::HMAC_SHA256, key);
    format!("{:?}", ring::hmac::sign(&key, message))
}

proof fn lemma_lower_hex(bytes: Seq<u8>)
    ensures
        lower_hex(bytes).len() == 2 * bytes.len(),
        is_ascii_chars(lower_hex(bytes)),
    decreases bytes.len(),
{
    if bytes.len() > 0 {
        lemma_lower_hex(bytes.drop_last());
        let h = lower_hex(bytes);
        let prev = lower_hex(bytes.drop_last());
        assert forall|i| 0 <= i < h.len() implies '\0' <= #[trigger] h[i] <= '\u{7f}' by {
            if i < prev.len() {
                assert(h[i] == prev[i]);
            }
        }
    }
}

/// Lower-case hex text has two characters per byte, each one of `0`-`9` or
/// `a`-`f`, and each pair reads back (high digit first) to its byte.
pub proof fn lemma_lower_hex_reads_back(bytes: Seq<u8>)
    ensures
        lower_hex(bytes).len() == 2 * bytes.len(),
        forall|i: int|
            0 <= i < lower_hex(bytes).len() ==> ('0' <= #[trigger] lower_hex(bytes)[i] <= '9'
                || 'a' <= lower_hex(bytes)[i] <= 'f'),
        forall|i: int|
            0 <= i < bytes.len() ==> #[trigger] bytes[i] == 16 * hex_char_value(lower_hex(bytes)[2 * i])
                + hex_char_value(lower_hex(bytes)[2 * i + 1]),
    decreases bytes.len(),
{
    lemma_lower_hex(bytes);
    if bytes.len() > 0 {
        let prev = bytes.drop_last();
        lemma_lower_hex_reads_back(prev);
        let h = lower_hex(bytes);
        let n = bytes.len() - 1;
        let b = bytes.last() as int;
        assert(b == 16 * (b / 16) + b % 16);
        assert forall|i: int| 0 <= i < h.len() implies ('0' <= #[trigger] h[i] <= '9' || 'a' <= h[i]
            <= 'f') by {
            if i < 2 * n {
                assert(h[i] == lower_hex(prev)[i]);
            }
        }
        assert forall|i: int| 0 <= i < bytes.len() implies #[trigger] bytes[i] == 16
            * hex_char_value(h[2 * i]) + hex_char_value(h[2 * i + 1]) by {
            if i < n {
                assert(bytes[i] == prev[i]);
                assert(h[2 * i] == lower_hex(prev)[2 * i]);
                assert(h[2 * i + 1] == lower_hex(prev)[2 * i + 1]);
            }
        }
    }
}

/// Cutting the debug form of any HMAC-SHA256 tag as `ring_sha256_to_str` does
/// leaves exactly the tag's lower-case hex digits.
pub proof fn lemma_strip_recovers_hex(tag: Seq<u8>)
    requires
        tag.len() == 32,
    ensures
        inner_digest_chars(sha256_tag_debug_text(tag)) == lower_hex(tag),
{
    lemma_lower_hex(tag);
    assert(inner_digest_chars(sha256_tag_debug_text(tag)) =~= lower_hex(tag));
}

/// The text that a request signature is computed over: the URL path, the query
/// string and the decimal expiry time, one after another.
pub open spec fn signature_payload(url_path: Seq<char>, query: Seq<char>, expiry: nat) -> Seq<char> {
    url_path + query + decimal(expiry)
}

/// The signature of a request: the lower-case hex HMAC-SHA256 of the UTF-8
/// payload under the key.
pub open spec fn request_signature(key: Seq<u8>, url_path: Seq<char>, query: Seq<char>, expiry: nat) -> Seq<char> {
    lower_hex(hmac_sha256(key, encode_utf8(signature_payload(url_path, query, expiry))))
}

/// Whether *ring* accepts the key and the payload without panicking.
pub open spec fn signable(key: Seq<u8>, url_path: Seq<char>, query: Seq<char>, expiry: nat) -> bool {
    &&& key.len() < sha256_input_limit()
    &&& encode_utf8(signature_payload(url_path, query, expiry)).len() + 64 < sha256_input_limit()
}

/// Signs an API request: decodes the Base64-URL secret, signs
/// `url_path ++ query_str ++ expiry` with HMAC-SHA256 and returns the tag in
/// lower-case hex. `None` where the secret does not decode or where *ring*
/// would panic on the key or payload length.
pub fn sign_request(secret: &str, url_path: &str, query_str: &str, expiry: u64) -> (res: Option<String>)
    ensures
        res is Some <==> (base64_url_decoded(secret@) is Some && signable(
            base64_url_decoded(secret@).unwrap(),
            url_path@,
            query_str@,
            expiry as nat,
        )),
        res matches Some(signature) ==> signature@ == request_signature(
            base64_url_decoded(secret@).unwrap(),
            url_path@,
            query_str@,
            expiry as nat,
        ),        base64_url_decoded(secret@) is None ==> res is None,
        res matches Some(signature) ==> signature@ == lower_hex(
            hmac_sha256(
                base64_url_decoded(secret@).unwrap(),
                encode_utf8(url_path@ + query_str@ + decimal(expiry as nat)),
            ),
        ),
        res is Some <==> (base64_url_decoded(secret@) is Some && base64_url_decoded(
            secret@,
        ).unwrap().len() < 0x2000_0000_0000_0000 && encode_utf8(
            url_path@ + query_str@ + decimal(expiry as nat),
        ).len() + 64 < 0x2000_0000_0000_0000),
{
    let key = match base64_url_decode(secret) {
        Some(key) => key,
        None => return None,
    };
    if key.len() as u64 >= 0x2000_0000_0000_0000u64 {
        return None;
    }
    let mut payload = String::from_str(url_path);
    payload.append(query_str);
    append_decimal(&mut payload, expiry);
    assert(payload@ =~= signature_payload(url_path@, query_str@, expiry as nat));
    let message = payload.as_str().as_bytes();
    if message.len() as u64 >= 0x2000_0000_0000_0000u64 - 64 {
        return None;
    }
    let text = hmac_sha256_debug_text(key.as_slice(), message);
    let ghost tag = hmac_sha256(key@, message@);
    let text_str = text.as_str();
    proof {
        lemma_lower_hex(tag);
        assert(is_ascii_chars(text@)) by {
            assert forall|i| 0 <= i < text@.len() implies '\0' <= #[trigger] text@[i] <= '\u{7f}' by {
                if 11 <= i < 75 {
                    assert(text@[i] == lower_hex(tag)[i - 11]);
                }
            }
        }
        is_ascii_spec_bytes(text_str);
    }
    let digits = ring_sha256_to_str(text_str);
    assert(digits@ =~= lower_hex(tag));
    Some(String::from_str(digits))
}

/// Seconds for which a signed request stays valid.
pub const REQUEST_LIFETIME_SECS: u64 = 60;

/// Expiry time of a request signed at `now_secs`.
pub fn request_expiry(now_secs: u64) -> (res: u64)
    requires
        now_secs + REQUEST_LIFETIME_SECS <= u64::MAX,
    ensures
        res == now_secs + REQUEST_LIFETIME_SECS,
{
    now_secs + REQUEST_LIFETIME_SECS
}

} // verus!
