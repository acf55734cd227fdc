//! Pixel data in the fixed layout that the encoder takes: four byte samples
//! per pixel (red, green, blue, alpha), row by row.

use vstd::prelude::*;

verus! {

/// The alpha sample of a fully opaque pixel.
pub const OPAQUE: u8 = 255;

/// Number of byte samples in an image of the given dimensions.
pub open spec fn sample_count(width: nat, height: nat) -> nat {
    width * height * 4
}

/// Whether every alpha sample (each fourth sample) is fully opaque.
pub open spec fn opaque_samples(samples: Seq<u8>) -> bool {
    forall|i: int| 0 <= i < samples.len() && i % 4 == 3 ==> samples[i] == OPAQUE
}

/// The samples with every alpha sample replaced by full opacity.
pub open spec fn with_opaque_alpha(samples: Seq<u8>) -> Seq<u8> {
    Seq::new(
        samples.len(),
        |i: int|
            if i % 4 == 3 {
                OPAQUE
            } else {
                samples[i]
            },
    )
}

/// What a decoder hands over: the dimensions, the samples already spread over
/// four channels, and whether the source carried an alpha channel of its own.
#[derive(Debug)]
pub struct DecodedImage {
    pub width: u32,
    pub height: u32,
    pub has_alpha: bool,
    pub samples: Vec<u8>,
}

/// The mathematical content of a pixel buffer.
pub ghost struct PixelGrid {
    pub width: nat,
    pub height: nat,
    pub samples: Seq<u8>,
}

impl PixelGrid {
    /// The content of an image of the given dimensions and samples.
    pub open spec fn of(width: u32, height: u32, samples: Seq<u8>) -> PixelGrid {
        PixelGrid { width: width as nat, height: height as nat, samples }
    }

    /// Both dimensions are positive, and there are exactly four samples for
    /// each pixel.
    pub open spec fn valid(self) -> bool {
        &&& 1 <= self.width <= u32::MAX
        &&& 1 <= self.height <= u32::MAX
        &&& self.samples.len() == sample_count(self.width, self.height)
    }
}

impl DecodedImage {
    /// Whether the image can be normalized: it has at least one pixel, and
    /// the decoder supplied samples for all of them.
    pub open spec fn fits(self) -> bool {
        &&& self.width >= 1
        &&& self.height >= 1
        &&& self.samples@.len() >= sample_count(self.width as nat, self.height as nat)
    }

    /// The normalized content: the samples of the image's own pixels, with
    /// the alpha channel made opaque where the source had none.
    pub open spec fn normalized(self) -> PixelGrid {
        let own = self.samples@.take(
            sample_count(self.width as nat, self.height as nat) as int,
        );
        PixelGrid::of(
            self.width,
            self.height,
            if self.has_alpha {
                own
            } else {
                with_opaque_alpha(own)
            },
        )
    }
}

/// A normalized image: held only for the length of one pipeline run.
pub struct PixelBuffer {
    width: u32,
    height: u32,
    samples: Vec<u8>,
}

impl View for PixelBuffer {
    type V = PixelGrid;

    closed spec fn view(&self) -> PixelGrid {
        PixelGrid::of(self.width, self.height, self.samples@)
    }
}

/// The sample count of an image, where it fits in `usize`.
fn checked_sample_count(width: u32, height: u32) -> (count: Option<usize>)
    ensures
        match count {
            Some(n) => n == sample_count(width as nat, height as nat),
            None => sample_count(width as nat, height as nat) > usize::MAX,
        },
{
    assert((width as nat) * (height as nat) <= 0xffff_ffff * 0xffff_ffff) by (nonlinear_arith)
        requires
            width <= 0xffff_ffff,
            height <= 0xffff_ffff,
    ;
    let pixels: u64 = (width as u64) * (height as u64);
    let wide: u128 = (pixels as u128) * 4;
    if wide <= usize::MAX as u128 {
        Some(wide as usize)
    } else {
        None
    }
}

impl PixelBuffer {
    /// Holds of every buffer: its content is valid.
    #[verifier::type_invariant]
    pub open spec fn well_formed(self) -> bool {
        self@.valid()
    }

    /// Takes samples that are already in the normalized layout. `None` where
    /// a dimension is zero or the number of samples is not four per pixel.
    pub fn new(width: u32, height: u32, samples: Vec<u8>) -> (buffer: Option<PixelBuffer>)
        ensures
            match buffer {
                Some(b) => b@ == PixelGrid::of(width, height, samples@) && b@.valid(),
                None => !PixelGrid::of(width, height, samples@).valid(),
            },
    {
        let given = samples.len();
        if width == 0 || height == 0 {
            return None;
        }
        match checked_sample_count(width, height) {
            Some(count) => {
                if given == count {
                    Some(PixelBuffer { width, height, samples })
                } else {
                    None
                }
            },
            None => None,
        }
    }

    /// Number of pixels in a row.
    pub fn width(&self) -> (w: u32)
        ensures
            w == self@.width,
            self@.valid(),
    {
        proof {
            use_type_invariant(self);
        }
        self.width
    }

    /// Number of rows.
    pub fn height(&self) -> (h: u32)
        ensures
            h == self@.height,
            self@.valid(),
    {
        proof {
            use_type_invariant(self);
        }
        self.height
    }

    /// The samples, row by row, four to a pixel.
    pub fn samples(&self) -> (s: &Vec<u8>)
        ensures
            s@ == self@.samples,
            self@.valid(),
    {
        proof {
            use_type_invariant(self);
        }
        &self.samples
    }
}

/// Brings a decoded image into the normalized layout. Samples beyond the
/// image's own pixels are dropped. Where the source had no alpha channel the
/// alpha samples are set to full opacity here, whatever the decoder put there.
pub fn normalize(image: DecodedImage) -> (buffer: Option<PixelBuffer>)
    ensures
        match buffer {
            Some(b) => image.fits() && b@ == image.normalized() && b@.valid(),
            None => !image.fits(),
        },
        !image.has_alpha ==> (buffer matches Some(b) ==> opaque_samples(b@.samples)),
{
    let DecodedImage { width, height, has_alpha, samples } = image;
    let given = samples.len();
    if width == 0 || height == 0 {
        return None;
    }
    let count = match checked_sample_count(width, height) {
        Some(count) => count,
        None => {
            return None;
        },
    };
    if given < count {
        return None;
    }
    let mut samples = samples;
    samples.truncate(count);
    let ghost own = samples@;
    if !has_alpha {
        let mut at: usize = 0;
        while at < count
            invariant
                at <= count,
                at % 4 == 0,
                count % 4 == 0,
                samples@.len() == count,
                own.len() == count,
                forall|i: int|
                    0 <= i < count ==> samples@[i] == (if i < at && i % 4 == 3 {
                        OPAQUE
                    } else {
                        own[i]
                    }),
            decreases count - at,
        {
            samples.set(at + 3, OPAQUE);
            at += 4;
        }
        assert(samples@ =~= with_opaque_alpha(own));
    }
    Some(PixelBuffer { width, height, samples })
}

} // verus!
