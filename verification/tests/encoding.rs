use vex_browser::encoding::{DecodeError, Encoding, TextDecoder, TextEncoder};

#[test]
fn encode_ascii() {
    let enc = TextEncoder::new();
    assert_eq!(enc.encode("hello"), b"hello");
}

#[test]
fn encode_unicode() {
    let enc = TextEncoder::new();
    let bytes = enc.encode("日本語");
    assert_eq!(bytes.len(), 9);
}

#[test]
fn encode_into_buffer() {
    let enc = TextEncoder::new();
    let mut buf = [0u8; 5];
    let result = enc.encode_into("hello world", &mut buf);
    assert_eq!(result.written, 5);
    assert_eq!(&buf, b"hello");
}

#[test]
fn encoder_encoding() {
    let enc = TextEncoder::new();
    assert_eq!(enc.encoding, "utf-8");
}

#[test]
fn decode_utf8() {
    let dec = TextDecoder::new(Encoding::Utf8);
    assert_eq!(dec.decode(b"hello").unwrap(), "hello");
}

#[test]
fn decode_utf8_with_bom() {
    let dec = TextDecoder::new(Encoding::Utf8);
    let mut input = vec![0xEF, 0xBB, 0xBF];
    input.extend_from_slice(b"hello");
    assert_eq!(dec.decode(&input).unwrap(), "hello");
}

#[test]
fn decode_utf8_invalid_lossy() {
    let dec = TextDecoder::new(Encoding::Utf8);
    let input = vec![0xFF, 0xFE, b'a'];
    let result = dec.decode(&input).unwrap();
    assert!(result.contains('\u{FFFD}'));
}

#[test]
fn decode_utf8_invalid_fatal() {
    let dec = TextDecoder::new(Encoding::Utf8).with_fatal(true);
    let input = vec![0xFF, 0xFE];
    assert!(dec.decode(&input).is_err());
}

#[test]
fn decode_latin1() {
    let dec = TextDecoder::new(Encoding::Latin1);
    let input = vec![0xC9];
    assert_eq!(dec.decode(&input).unwrap(), "É");
}

#[test]
fn decode_ascii_valid() {
    let dec = TextDecoder::new(Encoding::Ascii);
    assert_eq!(dec.decode(b"hello").unwrap(), "hello");
}

#[test]
fn decode_ascii_invalid_replacement() {
    let dec = TextDecoder::new(Encoding::Ascii);
    let result = dec.decode(&[0x80]).unwrap();
    assert_eq!(result, "\u{FFFD}");
}

#[test]
fn decode_ascii_invalid_fatal() {
    let dec = TextDecoder::new(Encoding::Ascii).with_fatal(true);
    assert!(dec.decode(&[0x80]).is_err());
}

#[test]
fn decode_utf16le() {
    let dec = TextDecoder::new(Encoding::Utf16Le);
    let input = vec![0x41, 0x00, 0x42, 0x00];
    assert_eq!(dec.decode(&input).unwrap(), "AB");
}

#[test]
fn decode_utf16be() {
    let dec = TextDecoder::new(Encoding::Utf16Be);
    let input = vec![0x00, 0x41, 0x00, 0x42];
    assert_eq!(dec.decode(&input).unwrap(), "AB");
}

#[test]
fn encoding_from_label() {
    assert_eq!(Encoding::from_label("utf-8"), Some(Encoding::Utf8));
    assert_eq!(Encoding::from_label("UTF8"), Some(Encoding::Utf8));
    assert_eq!(Encoding::from_label("latin1"), Some(Encoding::Latin1));
    assert_eq!(Encoding::from_label("unknown"), None);
}

#[test]
fn decoder_from_label() {
    let dec = TextDecoder::from_label("utf-8").unwrap();
    assert_eq!(dec.encoding, Encoding::Utf8);
    assert!(TextDecoder::from_label("invalid").is_none());
}

#[test]
fn encoding_label() {
    assert_eq!(Encoding::Utf8.label(), "utf-8");
    assert_eq!(Encoding::Latin1.label(), "iso-8859-1");
}

#[test]
fn encode_into_stops_before_a_cut_character() {
    let enc = TextEncoder::new();
    let mut buf = [7u8; 4];
    let result = enc.encode_into("aé€", &mut buf);
    assert_eq!(result.read, 2);
    assert_eq!(result.written, 3);
    assert_eq!(buf, [0x61, 0xC3, 0xA9, 7]);
    let mut two = [0u8; 2];
    let r1 = enc.encode_into("aé", &mut two);
    assert_eq!(r1.read, 1);
    assert_eq!(r1.written, 1);
    assert_eq!(two[0], b'a');
    let mut big = [9u8; 6];
    let r2 = enc.encode_into("ab", &mut big);
    assert_eq!(r2.written, 2);
    assert_eq!(r2.read, 2);
    assert_eq!(big, [b'a', b'b', 9, 9, 9, 9]);
}

#[test]
fn decode_utf16_surrogate_pairs() {
    let le = TextDecoder::new(Encoding::Utf16Le);
    assert_eq!(le.decode(&[0x3D, 0xD8, 0x00, 0xDE]).unwrap(), "\u{1F600}");
    let be = TextDecoder::new(Encoding::Utf16Be);
    assert_eq!(be.decode(&[0xD8, 0x3D, 0xDE, 0x00, 0x00, 0x41]).unwrap(), "\u{1F600}A");
    assert_eq!(le.decode(&[0x00, 0xDC, 0x3D, 0xD8]).unwrap(), "\u{FFFD}\u{FFFD}");
    let fatal = TextDecoder::new(Encoding::Utf16Le).with_fatal(true);
    assert_eq!(fatal.decode(&[0x3D, 0xD8, 0x00, 0xDE]).unwrap(), "\u{1F600}");
    let err = fatal.decode(&[0x3D, 0xD8, 0x41, 0x00]).unwrap_err();
    assert_eq!(err.message, "Invalid UTF-16 code unit: 0xD83D");
}

#[test]
fn decode_utf16_surrogate_fatal_message() {
    let dec = TextDecoder::new(Encoding::Utf16Le).with_fatal(true);
    let err = dec.decode(&[0x41, 0x00, 0x00, 0xD8]).unwrap_err();
    assert_eq!(err.message, "Invalid UTF-16 code unit: 0xD800");
    let lenient = TextDecoder::new(Encoding::Utf16Le);
    assert_eq!(lenient.decode(&[0x41, 0x00, 0x00, 0xD8, 0x42]).unwrap(), "A\u{FFFD}");
}

#[test]
fn decode_utf16_odd_length_fatal() {
    let dec = TextDecoder::new(Encoding::Utf16Be).with_fatal(true);
    let err = dec.decode(&[0x00, 0x41, 0x00]).unwrap_err();
    assert_eq!(err.message, "Odd number of bytes for UTF-16");
}

#[test]
fn decode_error_messages() {
    let dec = TextDecoder::new(Encoding::Ascii).with_fatal(true);
    let err = dec.decode(&[b'a', 0xC0]).unwrap_err();
    assert_eq!(err.describe(), "DecodeError: Invalid ASCII byte");
    let utf8 = TextDecoder::new(Encoding::Utf8).with_fatal(true);
    let e: DecodeError = utf8.decode(&[0xFF]).unwrap_err();
    assert!(e.message.starts_with("Invalid UTF-8: "));
}

#[test]
fn decode_utf8_bom_kept_when_ignored() {
    let mut dec = TextDecoder::new(Encoding::Utf8);
    dec.ignore_bom = true;
    let out = dec.decode(&[0xEF, 0xBB, 0xBF, b'x']).unwrap();
    assert_eq!(out, "\u{FEFF}x");
}

#[test]
fn encode_then_decode_roundtrip() {
    let text = "héllo € 𝄞 world";
    let bytes = TextEncoder::new().encode(text);
    assert_eq!(TextDecoder::new(Encoding::Utf8).decode(&bytes).unwrap(), text);
    assert_eq!(TextDecoder::new(Encoding::Utf8).with_fatal(true).decode(&bytes).unwrap(), text);
    // A leading U+FEFF is taken for a byte-order mark and dropped.
    let bom = TextEncoder::new().encode("\u{FEFF}x");
    assert_eq!(TextDecoder::new(Encoding::Utf8).decode(&bom).unwrap(), "x");
}
