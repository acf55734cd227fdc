use base64::Engine;
use surreal_photos::compression::{
    checked_artifact, compress, decode, decoded_buffer, encode, encode_buffer, encoded_text,
    render_failure, CodecError, QUALITY, SPEED,
};
use surreal_photos::pixels::{DecodedImage, PixelBuffer};

fn png_of(image: image::DynamicImage) -> Vec<u8> {
    let mut out = std::io::Cursor::new(Vec::new());
    image.write_to(&mut out, image::ImageFormat::Png).unwrap();
    out.into_inner()
}

fn rgb_png() -> Vec<u8> {
    let pixels = image::RgbImage::from_fn(16, 8, |x, y| {
        image::Rgb([(x * 16) as u8, (y * 32) as u8, 128])
    });
    png_of(image::DynamicImage::ImageRgb8(pixels))
}

fn rgba_png() -> Vec<u8> {
    let pixels = image::RgbaImage::from_fn(4, 4, |x, y| {
        image::Rgba([(x * 60) as u8, (y * 60) as u8, 9, (x * 4 + y) as u8 * 16])
    });
    png_of(image::DynamicImage::ImageRgba8(pixels))
}

fn is_avif(artifact: &[u8]) -> bool {
    artifact.len() > 12 && &artifact[4..8] == b"ftyp" && &artifact[8..12] == b"avif"
}

#[test]
fn fixed_settings() {
    assert_eq!(QUALITY, 90);
    assert_eq!(SPEED, 10);
}

#[test]
fn decode_failure_is_reported_with_its_message() {
    let outcome = decoded_buffer(Err("unsupported format".to_string()));
    assert!(matches!(outcome, Err(CodecError::Decode(m)) if m == "unsupported format"));
}

#[test]
fn decoded_image_without_pixels_is_a_decode_error() {
    let image = DecodedImage { width: 0, height: 0, has_alpha: true, samples: vec![] };
    assert!(matches!(
        decoded_buffer(Ok(image)),
        Err(CodecError::Decode(m)) if m == "decoded image has no pixels or too few samples"
    ));
    let image = DecodedImage { width: 2, height: 2, has_alpha: true, samples: vec![0; 12] };
    assert!(matches!(
        decoded_buffer(Ok(image)),
        Err(CodecError::Decode(m)) if m == "decoded image has no pixels or too few samples"
    ));
}

#[test]
fn decoded_image_is_normalized() {
    let image =
        DecodedImage { width: 1, height: 2, has_alpha: false, samples: vec![1, 2, 3, 4, 5, 6, 7, 8] };
    let buffer = decoded_buffer(Ok(image)).unwrap();
    assert_eq!(buffer.samples(), &vec![1, 2, 3, 255, 5, 6, 7, 255]);
    let image =
        DecodedImage { width: 1, height: 2, has_alpha: true, samples: vec![1, 2, 3, 4, 5, 6, 7, 8] };
    let buffer = decoded_buffer(Ok(image)).unwrap();
    assert_eq!(buffer.samples(), &vec![1, 2, 3, 4, 5, 6, 7, 8]);
}

#[test]
fn encoded_artifact_is_rendered_as_text() {
    assert_eq!(encoded_text(Ok(b"foobar".to_vec())).unwrap(), "Zm9vYmFy");
    assert_eq!(encoded_text(Ok(vec![0xff])).unwrap(), "/w==");
    assert_eq!(encoded_text(Ok(vec![])).unwrap(), "");
}

#[test]
fn encode_failure_is_reported_with_its_message() {
    let outcome = encoded_text(Err("Encoding error reported by rav1e".to_string()));
    assert!(
        matches!(outcome, Err(CodecError::Encode(m)) if m == "Encoding error reported by rav1e")
    );
}

#[test]
fn failures_are_rendered_for_the_caller() {
    assert_eq!(
        render_failure(CodecError::Decode("bad magic".to_string())),
        "Failed to decode image: bad magic"
    );
    assert_eq!(
        render_failure(CodecError::Encode("too wide".to_string())),
        "Failed to encode rgba: too wide"
    );
    assert_eq!(render_failure(CodecError::Decode(String::new())), "Failed to decode image: ");
}

#[test]
fn bytes_that_are_no_image_are_a_decode_error() {
    assert!(matches!(encode(b"this is not an image", 90, 10), Err(CodecError::Decode(_))));
    assert!(matches!(encode(&[], 90, 10), Err(CodecError::Decode(_))));
    assert!(matches!(decode(&[0x89, b'P', b'N', b'G']), Err(CodecError::Decode(_))));
}

#[test]
fn decode_failure_comes_before_the_settings() {
    assert!(matches!(encode(b"garbage", 0, 0), Err(CodecError::Decode(_))));
}

#[test]
fn compress_renders_a_decode_failure() {
    let shown = compress(b"not an image".to_vec()).unwrap_err();
    assert!(shown.starts_with("Failed to decode image: "));
    assert!(shown.len() > "Failed to decode image: ".len());
}

#[test]
fn truncated_image_is_a_decode_error() {
    let mut png = rgb_png();
    png.truncate(png.len() / 2);
    assert!(matches!(encode(&png, 90, 10), Err(CodecError::Decode(_))));
}

#[test]
fn decode_synthesizes_opaque_alpha() {
    let buffer = decode(&rgb_png()).unwrap();
    assert_eq!((buffer.width(), buffer.height()), (16, 8));
    let samples = buffer.samples();
    assert_eq!(samples.len(), 16 * 8 * 4);
    for pixel in samples.chunks(4) {
        assert_eq!(pixel[3], 255);
    }
    // column 3 of row 2
    let at = (2 * 16 + 3) * 4;
    assert_eq!(&samples[at..at + 4], &[48, 64, 128, 255]);
}

#[test]
fn decode_synthesizes_color_and_alpha_for_gray() {
    let pixels = image::GrayImage::from_fn(3, 2, |x, y| image::Luma([(x + 3 * y) as u8 * 40]));
    let buffer = decode(&png_of(image::DynamicImage::ImageLuma8(pixels))).unwrap();
    assert_eq!(
        buffer.samples(),
        &vec![
            0, 0, 0, 255, 40, 40, 40, 255, 80, 80, 80, 255, 120, 120, 120, 255, 160, 160, 160,
            255, 200, 200, 200, 255
        ]
    );
}

#[test]
fn decode_keeps_alpha_of_the_source() {
    let buffer = decode(&rgba_png()).unwrap();
    assert_eq!((buffer.width(), buffer.height()), (4, 4));
    let samples = buffer.samples();
    for y in 0..4usize {
        for x in 0..4usize {
            let at = (y * 4 + x) * 4;
            assert_eq!(
                &samples[at..at + 4],
                &[(x * 60) as u8, (y * 60) as u8, 9, ((x * 4 + y) * 16) as u8]
            );
        }
    }
}

#[test]
fn encode_gives_text_of_an_artifact_of_the_target_format() {
    let text = encode(&rgb_png(), 90, 10).unwrap();
    assert!(!text.is_empty());
    assert_eq!(text.len() % 4, 0);
    let artifact = base64::engine::general_purpose::STANDARD.decode(text.as_bytes()).unwrap();
    assert!(is_avif(&artifact));
}

#[test]
fn encode_takes_images_with_alpha() {
    let text = encode(&rgba_png(), 50, 8).unwrap();
    let artifact = base64::engine::general_purpose::STANDARD.decode(text.as_bytes()).unwrap();
    assert!(is_avif(&artifact));
}

#[test]
fn compress_gives_text_of_an_artifact_of_the_target_format() {
    let text = compress(rgb_png()).unwrap();
    let artifact = base64::engine::general_purpose::STANDARD.decode(text.as_bytes()).unwrap();
    assert!(is_avif(&artifact));
}

#[test]
fn settings_outside_the_encoder_range_are_an_encode_error() {
    let message = "quality must be within 1 to 100 and speed within 1 to 10";
    let png = rgb_png();
    assert!(matches!(encode(&png, 0, 10), Err(CodecError::Encode(m)) if m == message));
    assert!(matches!(encode(&png, 101, 10), Err(CodecError::Encode(m)) if m == message));
    assert!(matches!(encode(&png, 90, 0), Err(CodecError::Encode(m)) if m == message));
    assert!(matches!(encode(&png, 90, 11), Err(CodecError::Encode(m)) if m == message));
}

#[test]
fn settings_at_the_edges_of_the_range_are_taken() {
    let buffer = PixelBuffer::new(2, 2, vec![200; 16]).unwrap();
    assert!(encode_buffer(&buffer, 1, 10).is_ok());
    assert!(encode_buffer(&buffer, 100, 10).is_ok());
    assert!(encode_buffer(&buffer, 90, 1).is_ok());
}

#[test]
fn encode_buffer_takes_a_single_pixel() {
    let buffer = PixelBuffer::new(1, 1, vec![10, 20, 30, 255]).unwrap();
    let text = encode_buffer(&buffer, 90, 10).unwrap();
    let artifact = base64::engine::general_purpose::STANDARD.decode(text.as_bytes()).unwrap();
    assert!(is_avif(&artifact));
}

#[test]
fn encoder_rejects_dimensions_beyond_its_limit() {
    let buffer = PixelBuffer::new(70_000, 1, vec![0; 280_000]).unwrap();
    assert!(matches!(encode_buffer(&buffer, 90, 10), Err(CodecError::Encode(_))));
}

#[test]
fn encode_buffer_takes_small_transparent_images() {
    let shapes: [(u32, u32, Vec<u8>); 6] = [
        (1, 1, vec![10, 20, 30, 0]),
        (1, 1, vec![10, 20, 30, 128]),
        (2, 1, vec![255, 0, 0, 0, 0, 255, 0, 255]),
        (1, 3, vec![1, 2, 3, 4, 5, 6, 7, 8, 9, 10, 11, 12]),
        (3, 1, vec![0, 0, 0, 0, 9, 9, 9, 9, 255, 255, 255, 255]),
        (3, 3, vec![77; 36]),
    ];
    for (width, height, samples) in shapes {
        let buffer = PixelBuffer::new(width, height, samples).unwrap();
        let text = encode_buffer(&buffer, 90, 10).unwrap();
        let artifact = base64::engine::general_purpose::STANDARD.decode(text.as_bytes()).unwrap();
        assert!(is_avif(&artifact));
    }
}

#[test]
fn encoder_takes_dimensions_at_its_limit() {
    let buffer = PixelBuffer::new(65_535, 1, vec![255; 262_140]).unwrap();
    assert!(encode_buffer(&buffer, 90, 10).is_ok());
    let buffer = PixelBuffer::new(1, 65_536, vec![255; 262_144]).unwrap();
    assert!(matches!(encode_buffer(&buffer, 90, 10), Err(CodecError::Encode(_))));
}

#[test]
fn an_empty_artifact_is_a_failure_of_the_encoder() {
    assert_eq!(checked_artifact(Ok(vec![])), Err("encoder returned an empty artifact".to_string()));
    assert_eq!(checked_artifact(Ok(vec![0])), Ok(vec![0]));
    assert_eq!(checked_artifact(Ok(vec![1, 2, 3])), Ok(vec![1, 2, 3]));
    assert_eq!(checked_artifact(Err("too wide".to_string())), Err("too wide".to_string()));
}

#[test]
fn decode_error_carries_the_message_of_the_decoder() {
    for bytes in [&b"this is not an image"[..], &[][..], &[0x89, b'P', b'N', b'G'][..]] {
        let expected = image::load_from_memory(bytes).unwrap_err().to_string();
        assert!(matches!(decode(bytes), Err(CodecError::Decode(m)) if m == expected));
        assert!(matches!(encode(bytes, 90, 10), Err(CodecError::Decode(m)) if m == expected));
        assert_eq!(
            compress(bytes.to_vec()),
            Err(format!("Failed to decode image: {}", expected))
        );
    }
}

#[test]
fn corrupt_body_behind_a_valid_signature_is_a_decode_error() {
    let mut png = rgb_png();
    let end = png.len();
    for byte in &mut png[40..end - 12] {
        *byte = 0x5a;
    }
    let expected = image::load_from_memory(&png).unwrap_err().to_string();
    assert_eq!(compress(png), Err(format!("Failed to decode image: {}", expected)));
}

#[test]
fn success_is_never_empty() {
    for png in [rgb_png(), rgba_png()] {
        assert!(!compress(png).unwrap().is_empty());
    }
    let buffer = PixelBuffer::new(1, 1, vec![0, 0, 0, 0]).unwrap();
    assert!(!encode_buffer(&buffer, 1, 10).unwrap().is_empty());
}

#[test]
fn decode_gives_the_dimensions_of_the_image() {
    let pixels = image::RgbImage::from_pixel(7, 3, image::Rgb([1, 2, 3]));
    let buffer = decode(&png_of(image::DynamicImage::ImageRgb8(pixels))).unwrap();
    assert_eq!((buffer.width(), buffer.height()), (7, 3));
    assert_eq!(buffer.samples().len(), 7 * 3 * 4);
    assert_eq!(&buffer.samples()[..4], &[1, 2, 3, 255]);
}
