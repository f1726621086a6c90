//! Bounded decoding of base64, hex and gzip payloads into text.
use vstd::prelude::*;
use vstd::utf8::{decode_utf8, encode_utf8, is_char_boundary, valid_utf8};
use vstd::string::StringSliceAdditionalSpecFns;
use base64::Engine;
use std::io::Read;
use crate::model::{DecodedVariant, DecodedVariantView};
use crate::text::{is_ascii_hex_digit, is_hex_digit, is_whitespace, is_ws, push_char, string_of};

verus! {

broadcast use crate::text::lemma_byte_vec_deep_view;

/// Decoded text longer than this many bytes is cut for display.
pub const DISPLAY_LIMIT: usize = 8192;

/// Why a payload could not be decoded.
#[derive(Debug, Clone, Copy, PartialEq, Eq, Structural)]
pub enum DecodeError {
    InputTooLarge,
    OutputTooLarge,
    Invalid,
    NotText,
}

/// A decoded payload: its bytes, its text, and the variant shown to the user.
#[derive(Debug, Clone)]
pub struct DecodeOutcome {
    pub bytes: Vec<u8>,
    pub text: String,
    pub variant: DecodedVariant,
}

/// The mathematical value of a `DecodeOutcome`.
pub struct OutcomeView {
    pub bytes: Seq<u8>,
    pub text: Seq<char>,
    pub variant: DecodedVariantView,
}

impl View for DecodeOutcome {
    type V = OutcomeView;

    open spec fn view(&self) -> OutcomeView {
        OutcomeView { bytes: self.bytes@, text: self.text@, variant: self.variant@ }
    }
}

/// The mathematical value of a decoding result.
pub open spec fn outcome_view(r: Result<DecodeOutcome, DecodeError>) -> Result<OutcomeView, DecodeError> {
    match r {
        Ok(o) => Ok(o@),
        Err(e) => Err(e),
    }
}

/// What base64's `STANDARD` engine decodes a byte string to (`None` on error).
pub uninterp spec fn standard_base64(input: Seq<u8>) -> Option<Seq<u8>>;

/// What base64's `URL_SAFE` engine decodes a byte string to (`None` on error).
pub uninterp spec fn url_safe_base64(input: Seq<u8>) -> Option<Seq<u8>>;

/// The first `limit` bytes that flate2's `GzDecoder` yields for `input`
/// (`None` when reading them fails).
pub uninterp spec fn gunzip_prefix(input: Seq<u8>, limit: nat) -> Option<Seq<u8>>;

/// Calls `base64::engine::general_purpose::STANDARD.decode`; the result is
/// named `standard_base64` and not described further.
#[verifier::external_body]
fn decode_standard_base64(input: &[u8]) -> (r: Option<Vec<u8>>)
    ensures
        r.deep_view() == standard_base64(input@),
{
    base64::engine::general_purpose::STANDARD.decode(input).ok()
}

/// Calls `base64::engine::general_purpose::URL_SAFE.decode`; the result is
/// named `url_safe_base64` and not described further.
#[verifier::external_body]
fn decode_url_safe_base64(input: &[u8]) -> (r: Option<Vec<u8>>)
    ensures
        r.deep_view() == url_safe_base64(input@),
{
    base64::engine::general_purpose::URL_SAFE.decode(input).ok()
}

/// The value of an ASCII hex digit.
pub open spec fn hex_value(c: char) -> int {
    if '0' <= c && c <= '9' {
        c as int - '0' as int
    } else if 'a' <= c && c <= 'f' {
        c as int - 'a' as int + 10
    } else {
        c as int - 'A' as int + 10
    }
}

/// Whether `hex::decode` accepts a text: an even number of hex digits.
pub open spec fn hex_decodable(s: Seq<char>) -> bool {
    s.len() % 2 == 0 && forall|i: int| 0 <= i < s.len() ==> is_hex_digit(#[trigger] s[i])
}

/// The bytes that pairs of hex digits stand for.
pub open spec fn hex_bytes(s: Seq<char>) -> Seq<u8> {
    Seq::new(s.len() / 2, |i: int| (hex_value(s[2 * i]) * 16 + hex_value(s[2 * i + 1])) as u8)
}

/// Calls `hex::decode`, which succeeds exactly on an even number of hex
/// digits and turns each pair, high digit first, into one byte.
#[verifier::external_body]
fn hex_decode(text: &str) -> (r: Option<Vec<u8>>)
    ensures
        r is Some <==> hex_decodable(text@),
        r matches Some(b) ==> b@ == hex_bytes(text@),
{
    hex::decode(text).ok()
}

/// Reads at most `limit` bytes from flate2's `GzDecoder` over `input`; the
/// result is named `gunzip_prefix`; std's `Read::take` keeps it within `limit` bytes.
#[verifier::external_body]
fn gunzip_bounded(input: &[u8], limit: u64) -> (r: Option<Vec<u8>>)
    ensures
        r.deep_view() == gunzip_prefix(input@, limit as nat),
        r matches Some(b) ==> b@.len() <= limit,
{
    let mut decoder = flate2::read::GzDecoder::new(input);
    let mut bytes = Vec::new();
    match decoder.by_ref().take(limit).read_to_end(&mut bytes) {
        Ok(_) => Some(bytes),
        Err(_) => None,
    }
}

/// std's `String::from_utf8`: succeeds exactly on valid UTF-8, giving the
/// text that the bytes encode.
#[verifier::external_body]
fn utf8_text(bytes: Vec<u8>) -> (r: Option<String>)
    ensures
        r is Some <==> valid_utf8(bytes@),
        r matches Some(s) ==> s@ == decode_utf8(bytes@),
{
    String::from_utf8(bytes).ok()
}

/// The largest char boundary of `b` at or below `i`.
pub open spec fn boundary_at_or_below(b: Seq<u8>, i: int) -> int
    decreases i,
{
    if i <= 0 {
        0
    } else if is_char_boundary(b, i) {
        i
    } else {
        boundary_at_or_below(b, i - 1)
    }
}

/// The text shown for a decoded payload, and whether it was cut: texts over
/// `DISPLAY_LIMIT` bytes are cut at the last char boundary within the limit.
pub open spec fn display_text(text: Seq<char>) -> (Seq<char>, bool) {
    let b = encode_utf8(text);
    if b.len() <= DISPLAY_LIMIT {
        (text, false)
    } else {
        (decode_utf8(b.subrange(0, boundary_at_or_below(b, DISPLAY_LIMIT as int))), true)
    }
}

/// The text shown for a decoded payload, and whether it was cut.
pub fn truncate_display(input: &str) -> (r: (String, bool))
    ensures
        (r.0@, r.1) == display_text(input@),
        r.1 == (encode_utf8(input@).len() > DISPLAY_LIMIT),
        encode_utf8(r.0@).len() <= DISPLAY_LIMIT,
        encode_utf8(r.0@) == encode_utf8(input@).take(encode_utf8(r.0@).len() as int),
{
    proof {
        vstd::utf8::encode_utf8_decode_utf8(input@);
        vstd::utf8::encode_utf8_valid_utf8(input@);
    }
    if input.as_bytes().len() <= DISPLAY_LIMIT {
        assert(encode_utf8(input@).len() <= DISPLAY_LIMIT);
        let r = String::from_str(input);
        assert(r@ == input@);
        assert(encode_utf8(input@).take(encode_utf8(input@).len() as int) =~= encode_utf8(input@));
        return (r, false);
    }
    let ghost b = encode_utf8(input@);
    let mut end: usize = DISPLAY_LIMIT;
    proof {
        vstd::utf8::is_char_boundary_start_end_of_seq(b);
    }
    assert(b.len() > DISPLAY_LIMIT);
    while !input.is_char_boundary(end)
        invariant
            b == encode_utf8(input@),
            b == input.spec_bytes(),
            0 <= end <= DISPLAY_LIMIT,
            end < b.len(),
            is_char_boundary(b, 0),
            boundary_at_or_below(b, DISPLAY_LIMIT as int) == boundary_at_or_below(b, end as int),
        decreases end,
    {
        end = end - 1;
    }
    let (head, _tail) = input.split_at(end);
    proof {
        vstd::utf8::encode_utf8_decode_utf8(head@);
        assert(encode_utf8(head@) == b.subrange(0, end as int));
        assert(b.take(end as int) =~= b.subrange(0, end as int));
    }
    (String::from_str(head), true)
}

/// The outcome of turning decoded bytes into text under an output limit.
pub open spec fn bytes_outcome(transform: Seq<char>, bytes: Seq<u8>, max_output: nat) -> Result<OutcomeView, DecodeError> {
    if bytes.len() > max_output {
        Err(DecodeError::OutputTooLarge)
    } else if !valid_utf8(bytes) {
        Err(DecodeError::NotText)
    } else {
        let text = decode_utf8(bytes);
        Ok(
            OutcomeView {
                bytes,
                text,
                variant: DecodedVariantView {
                    transform,
                    text: display_text(text).0,
                    truncated: display_text(text).1,
                },
            },
        )
    }
}

/// Turns decoded bytes into text under an output limit.
pub fn decode_bytes(transform: &str, bytes: Vec<u8>, max_output: usize) -> (r: Result<DecodeOutcome, DecodeError>)
    ensures
        outcome_view(r) == bytes_outcome(transform@, bytes@, max_output as nat),
{
    if bytes.len() > max_output {
        return Err(DecodeError::OutputTooLarge);
    }
    let copy = copy_bytes(&bytes);
    let text = match utf8_text(copy) {
        Some(t) => t,
        None => {
            return Err(DecodeError::NotText);
        },
    };
    let (shown, cut) = truncate_display(text.as_str());
    let variant = DecodedVariant { transform: String::from_str(transform), text: shown, truncated: cut };
    Ok(DecodeOutcome { bytes, text, variant })
}

/// A copy of a byte vector.
fn copy_bytes(v: &Vec<u8>) -> (r: Vec<u8>)
    ensures
        r@ == v@,
{
    let mut out: Vec<u8> = Vec::new();
    let mut i: usize = 0;
    while i < v.len()
        invariant
            i <= v@.len(),
            out@ == v@.take(i as int),
        decreases v@.len() - i,
    {
        out.push(v[i]);
        i = i + 1;
        assert(out@ =~= v@.take(i as int));
    }
    assert(v@.take(i as int) =~= v@);
    out
}

/// `s` without its white space.
pub open spec fn without_ws(s: Seq<char>) -> Seq<char>
    decreases s.len(),
{
    if s.len() == 0 {
        s
    } else if is_ws(s.last()) {
        without_ws(s.drop_last())
    } else {
        without_ws(s.drop_last()).push(s.last())
    }
}

/// `s` with only its hex digits.
pub open spec fn only_hex(s: Seq<char>) -> Seq<char>
    decreases s.len(),
{
    if s.len() == 0 {
        s
    } else if is_hex_digit(s.last()) {
        only_hex(s.drop_last()).push(s.last())
    } else {
        only_hex(s.drop_last())
    }
}

/// The `=` characters that pad a text of `len` bytes to a multiple of four.
pub open spec fn base64_padding(len: nat) -> Seq<char> {
    Seq::new(((4 - len % 4) % 4) as nat, |i: int| '=')
}

/// The outcome of decoding base64 text: white space is dropped, the input
/// limit is checked on the remaining bytes, `=` padding is added, and the
/// standard alphabet is tried before the URL-safe one.
pub open spec fn base64_outcome(input: Seq<char>, max_input: nat, max_output: nat) -> Result<OutcomeView, DecodeError> {
    let cleaned = without_ws(input);
    let len = encode_utf8(cleaned).len();
    if len > max_input {
        Err(DecodeError::InputTooLarge)
    } else {
        let padded = encode_utf8(cleaned + base64_padding(len));
        match standard_base64(padded) {
            Some(b) => bytes_outcome("base64_decode"@, b, max_output),
            None => match url_safe_base64(padded) {
                Some(b) => bytes_outcome("base64_decode"@, b, max_output),
                None => Err(DecodeError::Invalid),
            },
        }
    }
}

/// Decodes base64 text, within input and output limits, into text.
pub fn decode_base64_text(input: &str, max_input: usize, max_output: usize) -> (r: Result<DecodeOutcome, DecodeError>)
    ensures
        outcome_view(r) == base64_outcome(input@, max_input as nat, max_output as nat),
{
    let chars = crate::text::chars_of(input);
    let mut kept: Vec<char> = Vec::new();
    let mut i: usize = 0;
    while i < chars.len()
        invariant
            i <= chars@.len(),
            kept@ == without_ws(chars@.take(i as int)),
        decreases chars@.len() - i,
    {
        assert(chars@.take(i + 1).drop_last() =~= chars@.take(i as int));
        if !is_whitespace(chars[i]) {
            kept.push(chars[i]);
        }
        i = i + 1;
    }
    assert(chars@.take(i as int) =~= input@);
    let mut cleaned = string_of(&kept);
    let len = cleaned.as_str().as_bytes().len();
    if len > max_input {
        return Err(DecodeError::InputTooLarge);
    }
    assert(len as nat == encode_utf8(without_ws(input@)).len());
    let pad = pad_base64(&mut cleaned, len);
    let bytes = cleaned.as_str().as_bytes();
    assert(bytes@ == encode_utf8(without_ws(input@) + base64_padding(len as nat)));
    match decode_standard_base64(bytes) {
        Some(b) => decode_bytes("base64_decode", b, max_output),
        None => match decode_url_safe_base64(bytes) {
            Some(b) => decode_bytes("base64_decode", b, max_output),
            None => Err(DecodeError::Invalid),
        },
    }
}

/// Adds `=` until a text of `len` bytes has a multiple of four bytes.
fn pad_base64(s: &mut String, len: usize) -> (n: usize)
    ensures
        final(s)@ == old(s)@ + base64_padding(len as nat),
{
    let n = (4 - len % 4) % 4;
    let mut k: usize = 0;
    while k < n
        invariant
            k <= n,
            n == (4 - len % 4) % 4,
            s@ == old(s)@ + Seq::new(k as nat, |i: int| '='),
        decreases n - k,
    {
        push_char(s, '=');
        k = k + 1;
        assert(s@ =~= old(s)@ + Seq::new(k as nat, |i: int| '='));
    }
    assert(Seq::new(k as nat, |i: int| '=') =~= base64_padding(len as nat));
    n
}

/// The outcome of decoding hex text: only hex digits are kept; more digits
/// than the input limit are too large, and an odd count is invalid.
pub open spec fn hex_outcome(input: Seq<char>, max_input: nat, max_output: nat) -> Result<OutcomeView, DecodeError> {
    let cleaned = only_hex(input);
    if cleaned.len() > max_input {
        Err(DecodeError::InputTooLarge)
    } else if cleaned.len() % 2 != 0 {
        Err(DecodeError::Invalid)
    } else {
        bytes_outcome("hex_decode"@, hex_bytes(cleaned), max_output)
    }
}

/// Every character kept by `only_hex` is a hex digit.
proof fn lemma_only_hex(s: Seq<char>)
    ensures
        forall|i: int| 0 <= i < only_hex(s).len() ==> is_hex_digit(#[trigger] only_hex(s)[i]),
    decreases s.len(),
{
    if s.len() > 0 {
        lemma_only_hex(s.drop_last());
        let prev = only_hex(s.drop_last());
        if is_hex_digit(s.last()) {
            assert forall|i: int| 0 <= i < only_hex(s).len() implies is_hex_digit(#[trigger] only_hex(s)[i]) by {
                if i < prev.len() {
                    assert(only_hex(s)[i] == prev[i]);
                }
            }
        }
    }
}

/// Decodes hex text, within input and output limits, into text.
pub fn decode_hex_text(input: &str, max_input: usize, max_output: usize) -> (r: Result<DecodeOutcome, DecodeError>)
    ensures
        outcome_view(r) == hex_outcome(input@, max_input as nat, max_output as nat),
{
    let chars = crate::text::chars_of(input);
    let mut kept: Vec<char> = Vec::new();
    let mut i: usize = 0;
    while i < chars.len()
        invariant
            i <= chars@.len(),
            kept@ == only_hex(chars@.take(i as int)),
        decreases chars@.len() - i,
    {
        assert(chars@.take(i + 1).drop_last() =~= chars@.take(i as int));
        if is_ascii_hex_digit(chars[i]) {
            kept.push(chars[i]);
        }
        i = i + 1;
    }
    assert(chars@.take(i as int) =~= input@);
    if kept.len() > max_input {
        return Err(DecodeError::InputTooLarge);
    }
    if kept.len() % 2 != 0 {
        return Err(DecodeError::Invalid);
    }
    proof {
        lemma_only_hex(input@);
    }
    let cleaned = string_of(&kept);
    match hex_decode(cleaned.as_str()) {
        Some(b) => decode_bytes("hex_decode", b, max_output),
        None => Err(DecodeError::Invalid),
    }
}

/// The outcome of decompressing gzip data: up to one byte over the output
/// limit is read, so that longer output is reported as too large.
pub open spec fn gzip_outcome(input: Seq<u8>, max_output: nat) -> Result<OutcomeView, DecodeError> {
    match gunzip_prefix(input, max_output + 1) {
        Some(b) => bytes_outcome("gzip_decompress"@, b, max_output),
        None => Err(DecodeError::Invalid),
    }
}

/// Decompresses gzip data, within an output limit, into text.
pub fn decode_gzip_bytes(input: &[u8], max_output: usize) -> (r: Result<DecodeOutcome, DecodeError>)
    requires
        max_output < usize::MAX,
    ensures
        outcome_view(r) == gzip_outcome(input@, max_output as nat),
{
    let limit: u64 = (max_output + 1) as u64;
    assert(limit as nat == max_output as nat + 1);
    match gunzip_bounded(input, limit) {
        Some(b) => decode_bytes("gzip_decompress", b, max_output),
        None => Err(DecodeError::Invalid),
    }
}

/// Decoding never reads more than the input limit nor yields more bytes than
/// the output limit: base64 text is decoded only when its bytes without white
/// space fit the input limit, hex text only when its digits do.
pub proof fn decoded_output_within_limit(input: Seq<char>, bytes: Seq<u8>, max_input: nat, max_output: nat)
    ensures
        base64_outcome(input, max_input, max_output) is Ok ==> encode_utf8(without_ws(input)).len() <= max_input,
        base64_outcome(input, max_input, max_output) matches Ok(o) ==> o.bytes.len() <= max_output,
        hex_outcome(input, max_input, max_output) is Ok ==> only_hex(input).len() <= max_input,
        hex_outcome(input, max_input, max_output) matches Ok(o) ==> o.bytes.len() <= max_output,
        gzip_outcome(bytes, max_output) matches Ok(o) ==> o.bytes.len() <= max_output,
{
}

/// The hex digits of a text are exactly its characters `0`-`9`, `a`-`f` and
/// `A`-`F`, in order: digits of either case are kept, and nothing else.
pub proof fn hex_keeps_digits_of_both_cases(s: Seq<char>)
    ensures
        only_hex(s) == s.filter(
            |c: char| ('0' <= c && c <= '9') || ('a' <= c && c <= 'f') || ('A' <= c && c <= 'F'),
        ),
    decreases s.len(),
{
    reveal(Seq::filter);
    if s.len() > 0 {
        hex_keeps_digits_of_both_cases(s.drop_last());
    }
}

/// Text made only of hex digits of either case, of even length within the
/// input limit, decodes pair by pair (high digit first) into bytes, which are
/// then taken as text within the output limit.
pub proof fn hex_text_decodes_pairwise(s: Seq<char>, max_input: nat, max_output: nat)
    requires
        forall|i: int|
            0 <= i < s.len() ==> ('0' <= #[trigger] s[i] && s[i] <= '9') || ('a' <= s[i] && s[i] <= 'f') || (
            'A' <= s[i] && s[i] <= 'F'),
        s.len() % 2 == 0,
        s.len() <= max_input,
    ensures
        hex_outcome(s, max_input, max_output) == bytes_outcome(
            "hex_decode"@,
            Seq::new(
                s.len() / 2,
                |i: int|
                    ((if s[2 * i] <= '9' {
                        s[2 * i] as int - '0' as int
                    } else if s[2 * i] <= 'F' {
                        s[2 * i] as int - 'A' as int + 10
                    } else {
                        s[2 * i] as int - 'a' as int + 10
                    }) * 16 + (if s[2 * i + 1] <= '9' {
                        s[2 * i + 1] as int - '0' as int
                    } else if s[2 * i + 1] <= 'F' {
                        s[2 * i + 1] as int - 'A' as int + 10
                    } else {
                        s[2 * i + 1] as int - 'a' as int + 10
                    })) as u8,
            ),
            max_output,
        ),
{
    hex_keeps_digits_of_both_cases(s);
    lemma_filter_keeps_all(s);
    let bs = Seq::new(
        s.len() / 2,
        |i: int|
            ((if s[2 * i] <= '9' {
                s[2 * i] as int - '0' as int
            } else if s[2 * i] <= 'F' {
                s[2 * i] as int - 'A' as int + 10
            } else {
                s[2 * i] as int - 'a' as int + 10
            }) * 16 + (if s[2 * i + 1] <= '9' {
                s[2 * i + 1] as int - '0' as int
            } else if s[2 * i + 1] <= 'F' {
                s[2 * i + 1] as int - 'A' as int + 10
            } else {
                s[2 * i + 1] as int - 'a' as int + 10
            })) as u8,
    );
    assert forall|i: int| 0 <= i < s.len() / 2 implies #[trigger] hex_bytes(s)[i] == bs[i] by {
        assert(0 <= 2 * i + 1 < s.len());
        let a = s[2 * i];
        let c = s[2 * i + 1];
    }
    assert(hex_bytes(s) =~= bs);
}

/// Filtering by a predicate that every member meets keeps the sequence.
proof fn lemma_filter_keeps_all(s: Seq<char>)
    requires
        forall|i: int|
            0 <= i < s.len() ==> ('0' <= #[trigger] s[i] && s[i] <= '9') || ('a' <= s[i] && s[i] <= 'f') || (
            'A' <= s[i] && s[i] <= 'F'),
    ensures
        s.filter(|c: char| ('0' <= c && c <= '9') || ('a' <= c && c <= 'f') || ('A' <= c && c <= 'F')) == s,
    decreases s.len(),
{
    reveal(Seq::filter);
    if s.len() > 0 {
        let init = s.drop_last();
        assert forall|i: int| 0 <= i < init.len() implies ('0' <= #[trigger] init[i] && init[i] <= '9') || (
        'a' <= init[i] && init[i] <= 'f') || ('A' <= init[i] && init[i] <= 'F') by {
            assert(init[i] == s[i]);
        }
        lemma_filter_keeps_all(init);
        assert(s.last() == s[s.len() - 1]);
        assert(init.push(s.last()) =~= s);
    }
}

} // verus!
