//! The codec pipeline: decode an uploaded image, normalize it, encode it
//! lossily, and render the artifact as radix-64 text.

use crate::database::t_images::{
    after_insert, holds, insert, store_failure_text, well_formed, ImageTable, StoreError,
};
use crate::pixels::{normalize, opaque_samples, sample_count, DecodedImage, PixelBuffer};
use crate::radix64::{
    base64_bytes, base64_text, can_render, lemma_text_len, render_text, renderable,
};
use rgb::FromSlice;
use vstd::prelude::*;

verus! {

/// Encoder quality that `compress` uses, on the scale 1 to 100.
pub const QUALITY: u8 = 90;

/// Encoder speed that `compress` uses: the fastest setting.
pub const SPEED: u8 = 10;

/// Why a pipeline run failed. Each carries a message for the caller.
#[derive(Debug)]
pub enum CodecError {
    /// The input is not a well-formed image of a supported format.
    Decode(String),
    /// The encoder rejected the settings or the normalized buffer.
    Encode(String),
}

/// Whether the encoder accepts these settings.
pub open spec fn valid_settings(quality: u8, speed: u8) -> bool {
    1 <= quality <= 100 && 1 <= speed <= 10
}

/// Calls `image::load_from_memory`, which guesses the format of the bytes and
/// decodes them. An image is taken apart into plain values: whether its
/// layout has an alpha channel (`DynamicImage::color`, `ColorType::has_alpha`),
/// then, after `DynamicImage::to_rgba8`, its `dimensions` and its samples
/// (`into_raw`). A failure is handed on as its message. Whether the bytes
/// decode is not a matter of the bytes alone: the crate keeps decoders that
/// the process has registered, and gives a failed allocation back as a
/// failure. So the contract claims only what holds of every image that comes
/// back, that there are at least four samples for each pixel: every image
/// buffer of the crate is made by `ImageBuffer::from_raw`, which checks that,
/// or by `ImageBuffer::new`, which allocates as many.
#[verifier::external_body]
fn load_rgba(raw: &[u8]) -> (loaded: Result<DecodedImage, String>)
    ensures
        loaded matches Ok(image) ==> image.samples@.len() >= sample_count(
            image.width as nat,
            image.height as nat,
        ),
{
    match ::image::load_from_memory(raw) {
        Ok(decoded) => {
            let has_alpha = decoded.color().has_alpha();
            let rgba = decoded.to_rgba8();
            let (width, height) = rgba.dimensions();
            Ok(DecodedImage { width, height, has_alpha, samples: rgba.into_raw() })
        },
        Err(e) => Err(e.to_string()),
    }
}

/// An encoder of the `ravif` crate with its settings.
#[verifier::external_type_specification]
#[verifier::external_body]
pub struct ExEncoder(ravif::Encoder);

/// Calls `ravif::Encoder::new`, then `with_quality` and `with_speed` on it.
/// Both panic outside the ranges that `requires` gives.
#[verifier::external_body]
fn configured_encoder(quality: u8, speed: u8) -> (encoder: ravif::Encoder)
    requires
        valid_settings(quality, speed),
{
    ravif::Encoder::new().with_quality(quality.into()).with_speed(speed)
}

/// Calls `ravif::Encoder::encode_rgba` with the samples seen as RGBA pixels
/// (`rgb::FromSlice::as_rgba`) in an image view of the given dimensions
/// (`ravif::Img::new`). Nothing is claimed of the artifact: it varies with
/// the number of processors. The image view panics on a zero width or on too
/// few samples, which `requires` excludes. A failure is handed on as its
/// message.
#[verifier::external_body]
fn encode_rgba(encoder: &ravif::Encoder, samples: &[u8], width: u32, height: u32) -> (encoded:
    Result<Vec<u8>, String>)
    requires
        width >= 1,
        height >= 1,
        samples@.len() == sample_count(width as nat, height as nat),
{
    let view = ravif::Img::new(samples.as_rgba(), width as usize, height as usize);
    match encoder.encode_rgba(view) {
        Ok(encoded) => Ok(encoded.avif_file),
        Err(e) => Err(e.to_string()),
    }
}

/// Message of the decode failure for an image without pixels, or with fewer
/// samples than its dimensions ask for.
pub open spec fn malformed_message() -> Seq<char> {
    "decoded image has no pixels or too few samples"@
}

/// Message of the encode failure for settings that the encoder does not take.
pub open spec fn settings_message() -> Seq<char> {
    "quality must be within 1 to 100 and speed within 1 to 10"@
}

/// Message of the encode failure for an artifact whose text would not fit in
/// memory.
pub open spec fn oversize_message() -> Seq<char> {
    "encoded artifact is too large to render as text"@
}

/// Message of the encode failure for an encoder that gave no bytes.
pub open spec fn empty_message() -> Seq<char> {
    "encoder returned an empty artifact"@
}

/// The text that a caller is shown for a decode failure with this message.
pub open spec fn decode_failure_text(message: Seq<char>) -> Seq<char> {
    "Failed to decode image: "@ + message
}

/// The text that a caller is shown for an encode failure with this message.
pub open spec fn encode_failure_text(message: Seq<char>) -> Seq<char> {
    "Failed to encode rgba: "@ + message
}

/// The text that a caller is shown for a failure.
pub open spec fn failure_text(error: CodecError) -> Seq<char> {
    match error {
        CodecError::Decode(message) => decode_failure_text(message@),
        CodecError::Encode(message) => encode_failure_text(message@),
    }
}

/// What the pipeline makes of the decoder's outcome: a failure is reported as
/// a decode error with the decoder's message, never replaced by a blank image;
/// a decoded image is normalized, and is a decode error too where it has no
/// pixels or too few samples.
pub fn decoded_buffer(loaded: Result<DecodedImage, String>) -> (buffer: Result<
    PixelBuffer,
    CodecError,
>)
    ensures
        match loaded {
            Ok(image) => if image.fits() {
                &&& buffer matches Ok(b)
                &&& b@ == image.normalized()
                &&& b@.valid()
                &&& !image.has_alpha ==> opaque_samples(b@.samples)
            } else {
                buffer matches Err(CodecError::Decode(message)) && message@ == malformed_message()
            },
            Err(message) => buffer == Err::<PixelBuffer, CodecError>(CodecError::Decode(message)),
        },
{
    match loaded {
        Ok(image) => match normalize(image) {
            Some(buffer) => Ok(buffer),
            None => Err(
                CodecError::Decode(
                    "decoded image has no pixels or too few samples".to_owned(),
                ),
            ),
        },
        Err(message) => Err(CodecError::Decode(message)),
    }
}

/// What of the encoder's outcome counts as an artifact: bytes, but not none
/// at all, which is a failure of the encoder.
pub fn checked_artifact(encoded: Result<Vec<u8>, String>) -> (checked: Result<Vec<u8>, String>)
    ensures
        match encoded {
            Ok(artifact) => if artifact@.len() > 0 {
                checked == Ok::<Vec<u8>, String>(artifact)
            } else {
                checked matches Err(message) && message@ == empty_message()
            },
            Err(message) => checked == Err::<Vec<u8>, String>(message),
        },
{
    match encoded {
        Ok(artifact) => {
            if artifact.len() == 0 {
                Err("encoder returned an empty artifact".to_owned())
            } else {
                Ok(artifact)
            }
        },
        Err(message) => Err(message),
    }
}

/// What the pipeline makes of the encoder's outcome: an artifact is rendered
/// as radix-64 text, a failure is reported as an encode error with the
/// encoder's message.
pub fn encoded_text(encoded: Result<Vec<u8>, String>) -> (text: Result<String, CodecError>)
    ensures
        match encoded {
            Ok(artifact) => if renderable(artifact@.len()) {
                &&& text matches Ok(rendered)
                &&& rendered@ == base64_text(artifact@)
                &&& base64_bytes(rendered@) == artifact@
            } else {
                text matches Err(CodecError::Encode(message)) && message@ == oversize_message()
            },
            Err(message) => text == Err::<String, CodecError>(CodecError::Encode(message)),
        },
{
    match encoded {
        Ok(artifact) => {
            if can_render(artifact.len()) {
                Ok(render_text(artifact.as_slice()))
            } else {
                Err(
                    CodecError::Encode(
                        "encoded artifact is too large to render as text".to_owned(),
                    ),
                )
            }
        },
        Err(message) => Err(CodecError::Encode(message)),
    }
}

/// Renders a failure as the text that a caller is shown.
pub fn render_failure(error: CodecError) -> (text: String)
    ensures
        text@ == failure_text(error),
{
    match error {
        CodecError::Decode(message) => "Failed to decode image: ".to_owned().concat(
            message.as_str(),
        ),
        CodecError::Encode(message) => "Failed to encode rgba: ".to_owned().concat(
            message.as_str(),
        ),
    }
}

/// Decodes an image of any supported format, guessed from the bytes, and
/// normalizes it. A buffer that comes back is the normalized form of the
/// image that the decoder gave, opaque where that image had no alpha channel.
/// A failure of the decoder is a decode error with the decoder's message, and
/// so is an image without pixels: `decoded_buffer` says so for every outcome
/// of the decoder.
pub fn decode(raw: &[u8]) -> (buffer: Result<PixelBuffer, CodecError>)
    ensures
        buffer matches Ok(b) ==> b@.valid() && exists|image: DecodedImage|
            image.fits() && b@ == image.normalized() && (!image.has_alpha ==> opaque_samples(
                b@.samples,
            )),
        buffer matches Err(e) ==> e is Decode,
{
    decoded_buffer(load_rgba(raw))
}

/// Encodes a normalized buffer lossily and renders the artifact as text.
/// Settings that the encoder does not take are an encode error, and so is an
/// encoder that gives no bytes: a text that comes back is never empty.
pub fn encode_buffer(buffer: &PixelBuffer, quality: u8, speed: u8) -> (text: Result<
    String,
    CodecError,
>)
    ensures
        text matches Ok(rendered) ==> {
            &&& valid_settings(quality, speed)
            &&& rendered@.len() > 0
            &&& exists|artifact: Seq<u8>|
                artifact.len() > 0 && rendered@ == base64_text(artifact) && base64_bytes(rendered@)
                    == artifact
        },
        text matches Err(e) ==> e is Encode,
        !valid_settings(quality, speed) ==> (text matches Err(CodecError::Encode(message))
            && message@ == settings_message()),
{
    if quality < 1 || quality > 100 || speed < 1 || speed > 10 {
        return Err(
            CodecError::Encode(
                "quality must be within 1 to 100 and speed within 1 to 10".to_owned(),
            ),
        );
    }
    let encoder = configured_encoder(quality, speed);
    let samples = buffer.samples();
    let width = buffer.width();
    let height = buffer.height();
    let artifact = checked_artifact(encode_rgba(&encoder, samples.as_slice(), width, height));
    proof {
        if artifact is Ok {
            lemma_text_len(artifact->Ok_0@);
        }
    }
    encoded_text(artifact)
}

/// Runs the whole pipeline on the bytes of an uploaded image: decode,
/// normalize, encode with the given quality (1 to 100, higher is more
/// faithful) and speed (1 to 10, lower is slower and smaller), render as
/// radix-64 text. A decode failure comes before any look at the settings.
/// Where the image decodes, settings that the encoder does not take are an
/// encode error; with settings that it takes the encoder decides, and a text
/// that comes back is the text of its artifact, never empty.
pub fn encode(raw: &[u8], quality: u8, speed: u8) -> (text: Result<String, CodecError>)
    ensures
        text matches Ok(rendered) ==> {
            &&& valid_settings(quality, speed)
            &&& rendered@.len() > 0
            &&& exists|artifact: Seq<u8>|
                artifact.len() > 0 && rendered@ == base64_text(artifact) && base64_bytes(rendered@)
                    == artifact
        },
        !valid_settings(quality, speed) ==> (text matches Err(error) && (error is Decode || (
        error matches CodecError::Encode(message) && message@ == settings_message()))),
{
    match decode(raw) {
        Ok(buffer) => encode_buffer(&buffer, quality, speed),
        Err(e) => Err(e),
    }
}

/// Re-encodes an uploaded image with the fixed settings `QUALITY` and
/// `SPEED`. A success is the text of the encoder's artifact, never empty. A
/// failure is rendered as text: that of a decode error or that of an encode
/// error, with the message of the decoder or of the encoder.
pub fn compress(image: Vec<u8>) -> (text: Result<String, String>)
    ensures
        text matches Ok(rendered) ==> rendered@.len() > 0 && exists|artifact: Seq<u8>|
            artifact.len() > 0 && rendered@ == base64_text(artifact) && base64_bytes(rendered@)
                == artifact,
        text matches Err(shown) ==> exists|message: Seq<char>|
            shown@ == decode_failure_text(message) || shown@ == encode_failure_text(message),
{
    match encode(image.as_slice(), QUALITY, SPEED) {
        Ok(rendered) => Ok(rendered),
        Err(error) => Err(render_failure(error)),
    }
}

/// The text that a caller is shown where an image could not be recorded.
pub open spec fn save_failure_text(error: StoreError) -> Seq<char> {
    "Failed to save compressed: "@ + store_failure_text(error)
}

/// Renders a failure to record an image as the text that a caller is shown.
pub fn render_save_failure(error: &StoreError) -> (text: String)
    ensures
        text@ == save_failure_text(*error),
{
    "Failed to save compressed: ".to_owned().concat(error.message().as_str())
}

/// Records an image that the caller decided to keep, as added at `now`. A
/// refusal by the table is rendered as text.
pub fn save_compressed(table: &mut ImageTable, image_id: &str, now: i64) -> (saved: Result<
    (),
    String,
>)
    ensures
        final(table)@ == after_insert(old(table)@, image_id@, now as int),
        well_formed(final(table)@),
        match saved {
            Ok(()) => !holds(old(table)@, image_id@),
            Err(shown) => holds(old(table)@, image_id@) && shown@ == save_failure_text(
                StoreError::DuplicateKey,
            ),
        },
{
    match insert(table, image_id, now) {
        Ok(()) => Ok(()),
        Err(error) => Err(render_save_failure(&error)),
    }
}

} // verus!
