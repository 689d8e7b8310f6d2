//! The Encoding API: `TextEncoder` (always UTF-8) and `TextDecoder`
//! (UTF-8, UTF-16LE/BE, ASCII and Latin-1).
use vstd::prelude::*;
use vstd::utf8::{
    char_is_scalar, decode_utf8, encode_scalar, encode_utf8, encode_utf8_decode_utf8,
    encode_utf8_valid_utf8, has_width_1_encoding, has_width_2_encoding, has_width_3_encoding,
    valid_utf8,
};
use crate::text::{
    ascii_lower, chars_eq_str, chars_of, copy_bytes, push_char, str_to_ascii_lower, utf8_decode,
};

verus! {

// ── TextEncoder ──────────────────────────────────────────────────────────────

/// A `TextEncoder`; its encoding is always UTF-8.
#[derive(Debug, Clone)]
pub struct TextEncoder {
    pub encoding: &'static str,
}

impl Default for TextEncoder {
    fn default() -> (r: Self)
        ensures
            r.encoding@ == "utf-8"@,
    {
        Self::new()
    }
}

/// The outcome of `encode_into`: characters read and bytes written.
#[derive(Debug, Clone, PartialEq, Eq, Structural)]
pub struct EncodeResult {
    pub read: usize,
    pub written: usize,
}

/// The UTF-8 encoding of a concatenation is the concatenation of the
/// encodings.
pub proof fn lemma_encode_utf8_concat(a: Seq<char>, b: Seq<char>)
    ensures
        encode_utf8(a + b) == encode_utf8(a) + encode_utf8(b),
    decreases a.len(),
{
    if a.len() == 0 {
        assert(a + b =~= b);
        assert(encode_utf8(a) + encode_utf8(b) =~= encode_utf8(b));
    } else {
        assert((a + b).drop_first() =~= a.drop_first() + b);
        assert((a + b)[0] == a[0]);
        lemma_encode_utf8_concat(a.drop_first(), b);
        assert(encode_utf8(a + b) =~= encode_utf8(a) + encode_utf8(b));
    }
}

/// The encoding of a longer prefix extends that of a shorter one.
pub proof fn lemma_encode_prefix(s: Seq<char>, m: int, n: int)
    requires
        0 <= m <= n <= s.len(),
    ensures
        encode_utf8(s.take(n)) == encode_utf8(s.take(m)) + encode_utf8(s.subrange(m, n)),
        encode_utf8(s.take(m)).len() <= encode_utf8(s.take(n)).len(),
{
    assert(s.take(n) =~= s.take(m) + s.subrange(m, n));
    lemma_encode_utf8_concat(s.take(m), s.subrange(m, n));
}

/// The encoding of `s[k]` alone, as the step from `k` characters to `k + 1`.
pub proof fn lemma_encode_step(s: Seq<char>, k: int)
    requires
        0 <= k < s.len(),
    ensures
        encode_utf8(s.take(k + 1)) == encode_utf8(s.take(k)) + encode_scalar(s[k] as u32),
{
    assert(s.subrange(k, k + 1) =~= seq![s[k]]);
    assert(seq![s[k]].drop_first() =~= Seq::<char>::empty());
    assert(encode_utf8(Seq::<char>::empty()) =~= Seq::<u8>::empty());
    assert(encode_utf8(seq![s[k]]) =~= encode_scalar(s[k] as u32));
    lemma_encode_prefix(s, k, k + 1);
}

/// The number of bytes that encode one character.
pub open spec fn utf8_width(c: char) -> nat {
    encode_scalar(c as u32).len()
}

/// Whether `n` characters of `s` are the longest prefix of whole
/// characters whose encoding fits in `cap` bytes.
pub open spec fn longest_fitting_prefix(s: Seq<char>, cap: int, n: int) -> bool {
    &&& 0 <= n <= s.len()
    &&& encode_utf8(s.take(n)).len() <= cap
    &&& forall|m: int| n < m <= s.len() ==> encode_utf8(#[trigger] s.take(m)).len() > cap
}

fn char_width(c: char) -> (w: usize)
    ensures
        w == utf8_width(c),
        1 <= w <= 4,
{
    proof {
        char_is_scalar(c);
    }
    let u = c as u32;
    if u < 0x80 {
        1
    } else if u < 0x800 {
        2
    } else if u < 0x10000 {
        3
    } else {
        4
    }
}

impl TextEncoder {
    /// A UTF-8 encoder.
    pub fn new() -> (r: Self)
        ensures
            r.encoding@ == "utf-8"@,
    {
        Self { encoding: "utf-8" }
    }

    /// The UTF-8 bytes of a string.
    pub fn encode(&self, input: &str) -> (r: Vec<u8>)
        ensures
            r@ == encode_utf8(input@),
    {
        copy_bytes(input.as_bytes())
    }

    /// Writes the UTF-8 bytes of the longest prefix of whole characters of
    /// `input` that fits at the start of `dest`; `read` counts those
    /// characters and `written` their bytes. The rest of `dest` is left as
    /// it was.
    pub fn encode_into(&self, input: &str, dest: &mut [u8]) -> (r: EncodeResult)
        ensures
            longest_fitting_prefix(input@, old(dest)@.len() as int, r.read as int),
            r.written == encode_utf8(input@.take(r.read as int)).len(),
            final(dest)@.len() == old(dest)@.len(),
            final(dest)@ == encode_utf8(input@.take(r.read as int)) + old(dest)@.skip(
                r.written as int,
            ),
    {
        let chars = chars_of(input);
        let bytes = input.as_bytes();
        let dlen = dest.len();
        let ghost s = input@;
        proof {
            assert(s.take(s.len() as int) =~= s);
            lemma_encode_prefix(s, 0, 0);
            assert(s.take(0) =~= Seq::<char>::empty());
        }
        let mut k: usize = 0;
        let mut pos: usize = 0;
        while k < chars.len() && char_width(chars[k]) <= dlen - pos
            invariant
                chars@ == s,
                bytes@ == encode_utf8(s),
                k <= s.len(),
                pos <= dlen,
                dlen == old(dest)@.len(),
                pos == encode_utf8(s.take(k as int)).len(),
            decreases chars.len() - k,
        {
            proof {
                lemma_encode_step(s, k as int);
            }
            pos = pos + char_width(chars[k]);
            k = k + 1;
        }
        proof {
            assert forall|m: int| k < m <= s.len() implies encode_utf8(#[trigger] s.take(m)).len() > dlen by {
                lemma_encode_step(s, k as int);
                lemma_encode_prefix(s, k + 1, m);
            }
            lemma_encode_prefix(s, k as int, s.len() as int);
            assert(bytes@.take(pos as int) =~= encode_utf8(s.take(k as int)));
        }
        let ghost d0 = dest@;
        let mut i: usize = 0;
        while i < pos
            invariant
                pos <= bytes@.len(),
                pos <= d0.len(),
                i <= pos,
                dest@.len() == d0.len(),
                dest@ == bytes@.take(i as int) + d0.skip(i as int),
            decreases pos - i,
        {
            let b = bytes[i];
            dest[i] = b;
            assert(bytes@.take(i + 1) =~= bytes@.take(i as int).push(b));
            assert(dest@ =~= bytes@.take(i + 1) + d0.skip(i + 1));
            i += 1;
        }
        EncodeResult { read: k, written: pos }
    }
}

// ── TextDecoder ──────────────────────────────────────────────────────────────

/// The encodings a `TextDecoder` supports.
#[derive(Debug, Clone, Copy, PartialEq, Eq, Hash, Structural)]
pub enum Encoding {
    Utf8,
    Utf16Le,
    Utf16Be,
    Ascii,
    Latin1,
}

/// The canonical label of an encoding.
pub open spec fn encoding_label(e: Encoding) -> Seq<char> {
    match e {
        Encoding::Utf8 => "utf-8"@,
        Encoding::Utf16Le => "utf-16le"@,
        Encoding::Utf16Be => "utf-16be"@,
        Encoding::Ascii => "us-ascii"@,
        Encoding::Latin1 => "iso-8859-1"@,
    }
}

/// The encoding that an (already lowercased) label names.
pub open spec fn encoding_for(lower: Seq<char>) -> Option<Encoding> {
    if lower == "utf-8"@ || lower == "utf8"@ {
        Some(Encoding::Utf8)
    } else if lower == "utf-16le"@ || lower == "utf-16"@ {
        Some(Encoding::Utf16Le)
    } else if lower == "utf-16be"@ {
        Some(Encoding::Utf16Be)
    } else if lower == "ascii"@ || lower == "us-ascii"@ {
        Some(Encoding::Ascii)
    } else if lower == "iso-8859-1"@ || lower == "latin1"@ || lower == "latin-1"@ {
        Some(Encoding::Latin1)
    } else {
        None
    }
}

impl Encoding {
    /// The canonical label.
    pub fn label(&self) -> (r: &'static str)
        ensures
            r@ == encoding_label(*self),
    {
        match self {
            Encoding::Utf8 => "utf-8",
            Encoding::Utf16Le => "utf-16le",
            Encoding::Utf16Be => "utf-16be",
            Encoding::Ascii => "us-ascii",
            Encoding::Latin1 => "iso-8859-1",
        }
    }

    /// The encoding a label names, ASCII case-insensitively.
    pub fn from_label(label: &str) -> (r: Option<Self>)
        ensures
            r == encoding_for(ascii_lower(label@)),
    {
        let l = str_to_ascii_lower(label);
        let s = l.as_slice();
        if chars_eq_str(s, "utf-8") || chars_eq_str(s, "utf8") {
            Some(Encoding::Utf8)
        } else if chars_eq_str(s, "utf-16le") || chars_eq_str(s, "utf-16") {
            Some(Encoding::Utf16Le)
        } else if chars_eq_str(s, "utf-16be") {
            Some(Encoding::Utf16Be)
        } else if chars_eq_str(s, "ascii") || chars_eq_str(s, "us-ascii") {
            Some(Encoding::Ascii)
        } else if chars_eq_str(s, "iso-8859-1") || chars_eq_str(s, "latin1") || chars_eq_str(
            s,
            "latin-1",
        ) {
            Some(Encoding::Latin1)
        } else {
            None
        }
    }
}

/// A decoding failure.
#[derive(Debug, Clone, PartialEq, Eq)]
pub struct DecodeError {
    pub message: String,
}

impl DecodeError {
    /// The error as displayed: `DecodeError: ` and the message.
    pub fn describe(&self) -> (r: String)
        ensures
            r@ == "DecodeError: "@ + self.message@,
    {
        let mut r = "DecodeError: ".to_owned();
        r.append(self.message.as_str());
        r
    }
}

/// The name of what `String::from_utf8_lossy` makes of bytes.
pub uninterp spec fn utf8_lossy(bytes: Seq<u8>) -> Seq<char>;

/// The name of the text with which `std::str::from_utf8` describes invalid bytes.
pub uninterp spec fn utf8_error_text(bytes: Seq<u8>) -> Seq<char>;

/// `String::from_utf8_lossy`: valid UTF-8 decodes as such; otherwise each
/// invalid sequence becomes U+FFFD, so the text holds at least one.
#[verifier::external_body]
fn lossy_utf8(bytes: &[u8]) -> (r: String)
    ensures
        r@ == utf8_lossy(bytes@),
        valid_utf8(bytes@) ==> r@ == decode_utf8(bytes@),
        !valid_utf8(bytes@) ==> r@.contains('\u{FFFD}'),
{
    String::from_utf8_lossy(bytes).into_owned()
}

/// `std::str::from_utf8`: the text of valid UTF-8, or the error's text.
#[verifier::external_body]
fn checked_utf8(bytes: &[u8]) -> (r: Result<String, String>)
    ensures
        r is Ok <==> valid_utf8(bytes@),
        r matches Ok(s) ==> s@ == decode_utf8(bytes@),
        r matches Err(m) ==> m@ == utf8_error_text(bytes@),
{
    match std::str::from_utf8(bytes) {
        Ok(s) => Ok(s.to_string()),
        Err(e) => Err(e.to_string()),
    }
}

/// `char::from_u32`: the character with a code, unless the code is a
/// surrogate or above U+10FFFF.
#[verifier::external_body]
fn char_from_u32(u: u32) -> (r: Option<char>)
    ensures
        r is None <==> (0xD800 <= u <= 0xDFFF || u > 0x10FFFF),
        r matches Some(c) ==> c == u as char,
{
    char::from_u32(u)
}

/// The bytes after a leading UTF-8 byte-order mark, unless it is kept.
pub open spec fn strip_bom(b: Seq<u8>, ignore_bom: bool) -> Seq<u8> {
    if !ignore_bom && b.len() >= 3 && b[0] == 0xEF && b[1] == 0xBB && b[2] == 0xBF {
        b.subrange(3, b.len() as int)
    } else {
        b
    }
}

/// Latin-1: each byte is the character with its code.
pub open spec fn latin1_text(b: Seq<u8>) -> Seq<char> {
    b.map_values(|x: u8| x as char)
}

/// ASCII: bytes above 127 become U+FFFD.
pub open spec fn ascii_char(x: u8) -> char {
    if x > 127 {
        '\u{FFFD}'
    } else {
        x as char
    }
}

/// ASCII decoding with replacement.
pub open spec fn ascii_text(b: Seq<u8>) -> Seq<char> {
    b.map_values(|x: u8| ascii_char(x))
}

/// Whether some byte is above 127.
pub open spec fn has_non_ascii(b: Seq<u8>) -> bool {
    exists|i: int| 0 <= i < b.len() && b[i] > 127
}

/// The `k`-th UTF-16 code unit of the bytes.
pub open spec fn utf16_unit(b: Seq<u8>, k: int, big_endian: bool) -> int {
    if big_endian {
        b[2 * k] * 256 + b[2 * k + 1]
    } else {
        b[2 * k + 1] * 256 + b[2 * k]
    }
}

/// Whether a code unit is a surrogate.
pub open spec fn is_surrogate(u: int) -> bool {
    0xD800 <= u <= 0xDFFF
}

/// Whether a code unit is a high (leading) surrogate.
pub open spec fn is_high_surrogate(u: int) -> bool {
    0xD800 <= u <= 0xDBFF
}

/// Whether a code unit is a low (trailing) surrogate.
pub open spec fn is_low_surrogate(u: int) -> bool {
    0xDC00 <= u <= 0xDFFF
}

/// A code unit that is not a surrogate, as a character; a lone surrogate
/// becomes U+FFFD.
pub open spec fn unit_char(u: int) -> char {
    if is_surrogate(u) {
        '\u{FFFD}'
    } else {
        u as char
    }
}

/// The character that a high and a low surrogate encode together.
pub open spec fn pair_char(high: int, low: int) -> char {
    (0x10000 + (high - 0xD800) * 1024 + (low - 0xDC00)) as char
}

/// The UTF-16 code units of the bytes; an odd last byte is dropped.
pub open spec fn utf16_units(b: Seq<u8>, big_endian: bool) -> Seq<int> {
    Seq::new(b.len() / 2, |k: int| utf16_unit(b, k, big_endian))
}

/// Whether the code units start with a high surrogate followed by a low one.
pub open spec fn starts_with_pair(u: Seq<int>) -> bool {
    u.len() >= 2 && is_high_surrogate(u[0]) && is_low_surrogate(u[1])
}

/// Code units decoded front to back: a high surrogate followed by a low
/// one is one character; any other surrogate becomes U+FFFD.
pub open spec fn decode_units(u: Seq<int>) -> Seq<char>
    decreases u.len(),
{
    if u.len() == 0 {
        seq![]
    } else if starts_with_pair(u) {
        seq![pair_char(u[0], u[1])] + decode_units(u.skip(2))
    } else {
        seq![unit_char(u[0])] + decode_units(u.skip(1))
    }
}

/// The first lone surrogate met when decoding the code units, if any.
pub open spec fn first_lone_surrogate(u: Seq<int>) -> Option<int>
    decreases u.len(),
{
    if u.len() == 0 {
        None
    } else if starts_with_pair(u) {
        first_lone_surrogate(u.skip(2))
    } else if is_surrogate(u[0]) {
        Some(u[0])
    } else {
        first_lone_surrogate(u.skip(1))
    }
}

/// UTF-16 decoding with replacement; an odd last byte is dropped.
pub open spec fn utf16_text(b: Seq<u8>, big_endian: bool) -> Seq<char> {
    decode_units(utf16_units(b, big_endian))
}

/// The first lone surrogate of UTF-16 bytes, if any.
pub open spec fn utf16_lone(b: Seq<u8>, big_endian: bool) -> Option<int> {
    first_lone_surrogate(utf16_units(b, big_endian))
}

/// An uppercase hexadecimal digit.
pub open spec fn hex_digit(d: int) -> char {
    if d < 10 {
        (48 + d) as char
    } else {
        (55 + d) as char
    }
}

/// A code unit written as `0x` and four uppercase hexadecimal digits.
pub open spec fn hex_unit(u: int) -> Seq<char> {
    seq![
        '0',
        'x',
        hex_digit(u / 4096),
        hex_digit((u / 256) % 16),
        hex_digit((u / 16) % 16),
        hex_digit(u % 16),
    ]
}

/// The message for a surrogate code unit met by a fatal decoder.
pub open spec fn surrogate_message(u: int) -> Seq<char> {
    "Invalid UTF-16 code unit: "@ + hex_unit(u)
}

fn hex_char(d: u32) -> (c: char)
    requires
        d < 16,
    ensures
        c == hex_digit(d as int),
{
    let b: u8 = if d < 10 {
        (48 + d) as u8
    } else {
        (55 + d) as u8
    };
    b as char
}

fn hex_unit_string(u: u32) -> (r: String)
    requires
        u < 0x10000,
    ensures
        r@ == hex_unit(u as int),
{
    let mut r = "0x".to_owned();
    proof {
        reveal_strlit("0x");
    }
    push_char(&mut r, hex_char(u / 4096));
    push_char(&mut r, hex_char((u / 256) % 16));
    push_char(&mut r, hex_char((u / 16) % 16));
    push_char(&mut r, hex_char(u % 16));
    assert(r@ =~= hex_unit(u as int));
    r
}

fn unit_at(input: &[u8], k: usize, big_endian: bool) -> (u: u32)
    requires
        2 * k + 1 < input@.len(),
    ensures
        u as int == utf16_unit(input@, k as int, big_endian),
        u < 0x10000,
{
    let n = input.len();
    assert(2 * k + 1 < n);
    let a = input[2 * k] as u32;
    let b = input[2 * k + 1] as u32;
    if big_endian {
        a * 256 + b
    } else {
        b * 256 + a
    }
}

/// Decodes UTF-16 code units in the given byte order: a high surrogate
/// followed by a low one makes one character; a lone surrogate becomes
/// U+FFFD, or the error when `fatal`.
fn decode_utf16(input: &[u8], big_endian: bool, fatal: bool) -> (r: Result<String, DecodeError>)
    ensures
        r is Ok <==> !(fatal && (input@.len() % 2 == 1 || utf16_lone(input@, big_endian) is Some)),
        r matches Ok(s) ==> s@ == utf16_text(input@, big_endian),
        fatal && input@.len() % 2 == 1 ==> (r matches Err(e) && e.message@
            == "Odd number of bytes for UTF-16"@),
        fatal && input@.len() % 2 == 0 ==> (r matches Err(e) ==> utf16_lone(input@, big_endian) matches Some(v)
            && e.message@ == surrogate_message(v)),
{
    let n = input.len();
    if n % 2 != 0 && fatal {
        return Err(DecodeError { message: "Odd number of bytes for UTF-16".to_owned() });
    }
    let units = n / 2;
    let ghost us = utf16_units(input@, big_endian);
    let mut result = String::new();
    let mut k: usize = 0;
    assert(us.skip(0) =~= us);
    assert(result@ + decode_units(us.skip(0)) =~= decode_units(us));
    while k < units
        invariant
            n == input@.len(),
            units == n / 2,
            us == utf16_units(input@, big_endian),
            us.len() == units,
            fatal ==> n % 2 == 0,
            k <= units,
            result@ + decode_units(us.skip(k as int)) == decode_units(us),
            fatal ==> first_lone_surrogate(us.skip(k as int)) == first_lone_surrogate(us),
        decreases units - k,
    {
        let ghost rest = us.skip(k as int);
        let ghost before = result@;
        let u = unit_at(input, k, big_endian);
        assert(rest[0] == u as int);
        let mut paired = false;
        let mut low: u32 = 0;
        if 0xD800 <= u && u <= 0xDBFF && k + 1 < units {
            low = unit_at(input, k + 1, big_endian);
            assert(rest[1] == low as int);
            if 0xDC00 <= low && low <= 0xDFFF {
                paired = true;
            }
        }
        if paired {
            let code: u32 = 0x10000 + (u - 0xD800) * 1024 + (low - 0xDC00);
            assert(starts_with_pair(rest));
            match char_from_u32(code) {
                Some(c) => {
                    push_char(&mut result, c);
                },
                None => {},
            }
            assert(rest.skip(2) =~= us.skip(k + 2));
            assert(result@ =~= before + seq![pair_char(rest[0], rest[1])]);
            k += 2;
        } else {
            assert(!starts_with_pair(rest));
            assert(rest.skip(1) =~= us.skip(k + 1));
            match char_from_u32(u) {
                Some(c) => {
                    push_char(&mut result, c);
                },
                None => {
                    if fatal {
                        let hex = hex_unit_string(u);
                        let mut m = "Invalid UTF-16 code unit: ".to_owned();
                        m.append(hex.as_str());
                        return Err(DecodeError { message: m });
                    }
                    push_char(&mut result, '\u{FFFD}');
                },
            }
            assert(result@ =~= before + seq![unit_char(rest[0])]);
            k += 1;
        }
    }
    assert(us.skip(k as int) =~= Seq::<int>::empty());
    assert(result@ =~= decode_units(us));
    Ok(result)
}

/// The bytes of a slice from `start` on.
fn bytes_from(b: &[u8], start: usize) -> (r: Vec<u8>)
    requires
        start <= b@.len(),
    ensures
        r@ == b@.subrange(start as int, b@.len() as int),
{
    let mut r: Vec<u8> = Vec::new();
    let mut i: usize = start;
    while i < b.len()
        invariant
            start <= i <= b@.len(),
            r@ == b@.subrange(start as int, i as int),
        decreases b.len() - i,
    {
        r.push(b[i]);
        assert(b@.subrange(start as int, i + 1) =~= b@.subrange(start as int, i as int).push(
            b@[i as int],
        ));
        i += 1;
    }
    r
}

/// A `TextDecoder`.
#[derive(Debug, Clone)]
pub struct TextDecoder {
    pub encoding: Encoding,
    pub fatal: bool,
    pub ignore_bom: bool,
}

impl Default for TextDecoder {
    fn default() -> (r: Self)
        ensures
            r.encoding == Encoding::Utf8,
            !r.fatal,
            !r.ignore_bom,
    {
        Self::new(Encoding::Utf8)
    }
}

/// What a fatal UTF-8 decoder returns for the outcome of the UTF-8 check:
/// the text, or the error with its description.
pub fn utf8_outcome(checked: Result<String, String>) -> (r: Result<String, DecodeError>)
    ensures
        checked matches Ok(s) ==> r matches Ok(t) && t@ == s@,
        checked matches Err(m) ==> r matches Err(e) && e.message@ == "Invalid UTF-8: "@ + m@,
{
    match checked {
        Ok(s) => Ok(s),
        Err(m) => {
            let mut message = "Invalid UTF-8: ".to_owned();
            message.append(m.as_str());
            Err(DecodeError { message })
        },
    }
}

impl TextDecoder {
    /// A decoder for an encoding, neither fatal nor keeping a byte-order mark.
    pub fn new(encoding: Encoding) -> (r: Self)
        ensures
            r.encoding == encoding,
            !r.fatal,
            !r.ignore_bom,
    {
        Self { encoding, fatal: false, ignore_bom: false }
    }

    /// A decoder for the encoding a label names.
    pub fn from_label(label: &str) -> (r: Option<Self>)
        ensures
            encoding_for(ascii_lower(label@)) is None ==> r is None,
            encoding_for(ascii_lower(label@)) matches Some(e) ==> r matches Some(d) && d.encoding
                == e && !d.fatal && !d.ignore_bom,
    {
        match Encoding::from_label(label) {
            Some(e) => Some(Self::new(e)),
            None => None,
        }
    }

    /// The same decoder with `fatal` set.
    pub fn with_fatal(self, fatal: bool) -> (r: Self)
        ensures
            r.encoding == self.encoding,
            r.fatal == fatal,
            r.ignore_bom == self.ignore_bom,
    {
        let mut d = self;
        d.fatal = fatal;
        d
    }

    /// Decodes bytes. A fatal decoder fails on what a lenient one replaces
    /// with U+FFFD.
    pub fn decode(&self, input: &[u8]) -> (r: Result<String, DecodeError>)
        ensures
            self.encoding == Encoding::Utf8 ==> {
                let body = strip_bom(input@, self.ignore_bom);
                if self.fatal {
                    &&& (r is Ok <==> valid_utf8(body))
                    &&& (r matches Ok(s) ==> s@ == decode_utf8(body))
                    &&& (r matches Err(e) ==> e.message@ == "Invalid UTF-8: "@ + utf8_error_text(
                        body,
                    ))
                } else {
                    r matches Ok(s) && s@ == utf8_lossy(body) && (valid_utf8(body) ==> s@
                        == decode_utf8(body))
                }
            },
            self.encoding == Encoding::Latin1 ==> (r matches Ok(s) && s@ == latin1_text(input@)),
            self.encoding == Encoding::Ascii ==> if self.fatal && has_non_ascii(input@) {
                r matches Err(e) && e.message@ == "Invalid ASCII byte"@
            } else {
                r matches Ok(s) && s@ == ascii_text(input@)
            },
            (self.encoding == Encoding::Utf16Le || self.encoding == Encoding::Utf16Be) ==> {
                let be = self.encoding == Encoding::Utf16Be;
                &&& (r is Ok <==> !(self.fatal && (input@.len() % 2 == 1 || utf16_lone(input@, be) is Some)))
                &&& (r matches Ok(s) ==> s@ == utf16_text(input@, be))
                &&& (self.fatal && input@.len() % 2 == 1 ==> (r matches Err(e) && e.message@
                    == "Odd number of bytes for UTF-16"@))
                &&& (self.fatal && input@.len() % 2 == 0 ==> (r matches Err(e) ==> utf16_lone(input@, be) matches Some(v)
                    && e.message@ == surrogate_message(v)))
            },
    {
        match self.encoding {
            Encoding::Utf8 => {
                let n = input.len();
                let skip = !self.ignore_bom && n >= 3 && input[0] == 0xEF && input[1] == 0xBB
                    && input[2] == 0xBF;
                let body = if skip {
                    bytes_from(input, 3)
                } else {
                    bytes_from(input, 0)
                };
                assert(body@ == strip_bom(input@, self.ignore_bom)) by {
                    if !skip {
                        assert(input@.subrange(0, input@.len() as int) =~= input@);
                    }
                }
                if self.fatal {
                    utf8_outcome(checked_utf8(body.as_slice()))
                } else {
                    Ok(lossy_utf8(body.as_slice()))
                }
            },
            Encoding::Latin1 => {
                let mut s = String::new();
                let mut i: usize = 0;
                while i < input.len()
                    invariant
                        i <= input@.len(),
                        s@ == latin1_text(input@).take(i as int),
                    decreases input.len() - i,
                {
                    let b = input[i];
                    push_char(&mut s, b as char);
                    assert(s@ =~= latin1_text(input@).take(i + 1));
                    i += 1;
                }
                assert(s@ =~= latin1_text(input@));
                Ok(s)
            },
            Encoding::Ascii => {
                let mut s = String::new();
                let mut i: usize = 0;
                while i < input.len()
                    invariant
                        i <= input@.len(),
                        self.encoding == Encoding::Ascii,
                        s@ == ascii_text(input@).take(i as int),
                        self.fatal ==> forall|j: int| 0 <= j < i ==> input@[j] <= 127,
                    decreases input.len() - i,
                {
                    let b = input[i];
                    if b > 127 {
                        if self.fatal {
                            return Err(DecodeError { message: "Invalid ASCII byte".to_owned() });
                        }
                        push_char(&mut s, '\u{FFFD}');
                    } else {
                        push_char(&mut s, b as char);
                    }
                    assert(s@ =~= ascii_text(input@).take(i + 1));
                    i += 1;
                }
                assert(s@ =~= ascii_text(input@));
                Ok(s)
            },
            Encoding::Utf16Le => decode_utf16(input, false, self.fatal),
            Encoding::Utf16Be => decode_utf16(input, true, self.fatal),
        }
    }
}


/// Only U+FEFF encodes to the three bytes of a byte-order mark.
proof fn lemma_bom_bytes(c: u32)
    requires
        vstd::utf8::is_scalar(c),
        encode_scalar(c).len() >= 3,
        encode_scalar(c)[0] == 0xEF,
        encode_scalar(c)[1] == 0xBB,
        encode_scalar(c)[2] == 0xBF,
    ensures
        c == 0xFEFF,
{
    if has_width_1_encoding(c) || has_width_2_encoding(c) {
    } else if has_width_3_encoding(c) {
        let b0 = vstd::utf8::leading_byte_width_3(c);
        let b1 = vstd::utf8::second_last_continuation_byte(c);
        let b2 = vstd::utf8::last_continuation_byte(c);
        assert(b0 == 0xEF && b1 == 0xBB && b2 == 0xBF);
        assert(0x800 <= c <= 0xFFFF && 0xE0 | ((c >> 12) & 0x0F) as u8 == 0xEF && 0x80 | ((c >> 6)
            & 0x3F) as u8 == 0xBB && 0x80 | (c & 0x3F) as u8 == 0xBF ==> c == 0xFEFF) by (bit_vector);
    } else {
        let b0 = vstd::utf8::leading_byte_width_4(c);
        assert(b0 == 0xEF);
        assert(0xF0 | ((c >> 18) & 0x7) as u8 != 0xEF) by (bit_vector);
    }
}

/// Decoding UTF-8 that the encoder wrote gives the text back: the bytes
/// `TextEncoder::encode` returns (`encode_utf8(s)`) keep their body through
/// the byte-order-mark check, are valid UTF-8, and decode to `s`, so a UTF-8
/// `TextDecoder`, fatal or not, returns `Ok` with `s`. A decoder that drops
/// a leading byte-order mark does so only for a text that starts with
/// U+FEFF.
pub proof fn law_utf8_roundtrip(s: Seq<char>, ignore_bom: bool)
    requires
        ignore_bom || s.len() == 0 || s[0] != '\u{FEFF}',
    ensures
        strip_bom(encode_utf8(s), ignore_bom) == encode_utf8(s),
        valid_utf8(encode_utf8(s)),
        decode_utf8(encode_utf8(s)) == s,
{
    encode_utf8_valid_utf8(s);
    encode_utf8_decode_utf8(s);
    let b = encode_utf8(s);
    if !ignore_bom && b.len() >= 3 && b[0] == 0xEF && b[1] == 0xBB && b[2] == 0xBF {
        assert(s.len() > 0);
        let c = s[0] as u32;
        char_is_scalar(s[0]);
        assert(b == encode_scalar(c) + encode_utf8(s.drop_first()));
        if encode_scalar(c).len() >= 3 {
            lemma_bom_bytes(c);
            vstd::utf8::char_u32_cast(s[0], c);
            assert(s[0] == (0xFEFFu32 as char));
            assert(false);
        } else if has_width_1_encoding(c) {
            assert(encode_scalar(c)[0] == b[0]);
            assert((c & 0x7F) as u8 != 0xEF) by (bit_vector);
        } else {
            assert(has_width_2_encoding(c));
            assert(encode_scalar(c)[0] == b[0]);
            assert(0xC0 | ((c >> 6) & 0x1F) as u8 != 0xEF) by (bit_vector);
        }
    }
}

} // verus!
