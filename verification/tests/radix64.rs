use base64::Engine;
use surreal_photos::radix64::{can_render, render_text};

#[test]
fn renders_reference_vectors() {
    assert_eq!(render_text(b""), "");
    assert_eq!(render_text(b"f"), "Zg==");
    assert_eq!(render_text(b"fo"), "Zm8=");
    assert_eq!(render_text(b"foo"), "Zm9v");
    assert_eq!(render_text(b"foob"), "Zm9vYg==");
    assert_eq!(render_text(b"fooba"), "Zm9vYmE=");
    assert_eq!(render_text(b"foobar"), "Zm9vYmFy");
}

#[test]
fn renders_last_symbols_of_alphabet() {
    assert_eq!(render_text(&[0xfb, 0xff, 0xbf]), "+/+/");
    assert_eq!(render_text(&[0xff, 0xff, 0xff]), "////");
    assert_eq!(render_text(&[0x00, 0x00, 0x00]), "AAAA");
    assert_eq!(render_text(&[0xfb, 0xff]), "+/8=");
}

#[test]
fn renders_digits_and_lower_case() {
    // 0x69 0xb7 0x1d -> values 26, 27, 28, 29
    assert_eq!(render_text(&[0x69, 0xb7, 0x1d]), "abcd");
    // 0xd3 0x5d 0xb7 -> values 52, 53, 54, 55
    assert_eq!(render_text(&[0xd3, 0x5d, 0xb7]), "0123");
}

#[test]
fn text_is_not_the_input() {
    let text = render_text(b"hello");
    assert_eq!(text, "aGVsbG8=");
    assert_ne!(text.as_bytes(), b"hello");
}

#[test]
fn text_length_is_four_per_three_bytes() {
    for n in 0..50usize {
        let bytes = vec![0xa5u8; n];
        assert_eq!(render_text(&bytes).len(), 4 * ((n + 2) / 3));
    }
}

#[test]
fn text_decodes_to_the_bytes() {
    let bytes: Vec<u8> = (0..=255u8).collect();
    for end in [0usize, 1, 2, 3, 4, 5, 100, 255, 256] {
        let text = render_text(&bytes[..end]);
        let back = base64::engine::general_purpose::STANDARD.decode(text.as_bytes()).unwrap();
        assert_eq!(back, &bytes[..end]);
    }
}

#[test]
fn can_render_up_to_the_limit() {
    assert!(can_render(0));
    assert!(can_render(1));
    assert!(can_render(3 * (usize::MAX / 4)));
    assert!(!can_render(3 * (usize::MAX / 4) + 1));
    assert!(!can_render(usize::MAX));
}

#[test]
fn every_six_bit_value_has_its_symbol() {
    let alphabet = "ABCDEFGHIJKLMNOPQRSTUVWXYZabcdefghijklmnopqrstuvwxyz0123456789+/";
    for (v, symbol) in alphabet.chars().enumerate() {
        let v = v as u8;
        let bytes = [(v << 2) | (v >> 4), (v << 4) | (v >> 2), (v << 6) | v];
        let expected: String = std::iter::repeat(symbol).take(4).collect();
        assert_eq!(render_text(&bytes), expected);
    }
}
