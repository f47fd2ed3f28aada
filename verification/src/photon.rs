//! The concrete engine, backed by the photon imaging primitives. Pixel
//! mathematics stays inside photon; each call is named by an uninterpreted
//! function of its plain inputs, so that the dispatch, ordering, validation
//! and no-op rules around the calls are verified.

use vstd::prelude::*;
use crate::pb::{Spec, SpecData, Resize, ResizeType, SampleFilter, Filter, filter_key};
use crate::engine::{
    Engine, SpecTransform, EngineState, EngineError, OutputFormat, dims_ok, spec_op_ok, MAX_DIM,
};

verus! {

#[verifier::external_type_specification]
#[verifier::external_body]
pub struct ExPhotonImage(photon_rs::PhotonImage);

/// The raw RGBA bytes a photon image holds.
pub uninterp spec fn img_pixels(img: photon_rs::PhotonImage) -> Seq<u8>;

/// The width a photon image was made with.
pub uninterp spec fn img_width(img: photon_rs::PhotonImage) -> u32;

/// The height a photon image was made with.
pub uninterp spec fn img_height(img: photon_rs::PhotonImage) -> u32;

/// Whether the container decoders accept these source bytes.
pub uninterp spec fn load_ok(data: Seq<u8>) -> bool;

/// The RGBA bytes decoded from accepted source bytes.
pub uninterp spec fn load_pixels(data: Seq<u8>) -> Seq<u8>;

/// The pixel width decoded from accepted source bytes.
pub uninterp spec fn load_width(data: Seq<u8>) -> u32;

/// The pixel height decoded from accepted source bytes.
pub uninterp spec fn load_height(data: Seq<u8>) -> u32;

/// What photon's `transform::resize` computes, as a function of the buffer,
/// its size, the target size and the sampling-filter discriminant.
pub uninterp spec fn photon_resize_fn(
    pixels: Seq<u8>,
    w0: u32,
    h0: u32,
    w: u32,
    h: u32,
    filter: u64,
) -> Seq<u8>;

/// What photon's `transform::seam_carve` computes.
pub uninterp spec fn photon_seam_fn(pixels: Seq<u8>, w0: u32, h0: u32, w: u32, h: u32) -> Seq<u8>;

/// What photon's `filters::filter` computes for a named filter.
pub uninterp spec fn photon_filter_fn(pixels: Seq<u8>, name: Seq<char>) -> Seq<u8>;

/// What the container encoders produce for a buffer, its size and a format.
pub uninterp spec fn photon_render_fn(pixels: Seq<u8>, w: u32, h: u32, format: int) -> Seq<u8>;

/// Photon's sampling-filter discriminant for a wire sampling filter; the
/// `Undefined` sentinel maps to the primitive's default, `Nearest`.
pub open spec fn photon_sampling_code(f: SampleFilter) -> u64 {
    match f {
        SampleFilter::Undefined => 1,
        SampleFilter::Nearest => 1,
        SampleFilter::Triangle => 2,
        SampleFilter::CatmullRom => 3,
        SampleFilter::Gaussian => 4,
        SampleFilter::Lanczos3 => 5,
    }
}

/// Distinct code of an output format, JPEG quality included.
pub open spec fn format_code(f: OutputFormat) -> int {
    match f {
        OutputFormat::Png => 0,
        OutputFormat::Jpeg(q) => 1 + q as u64,
    }
}

/// Relies on photon's `PhotonImage::new`: it stores the given buffer and
/// size unchanged.
#[verifier::external_body]
fn photon_new(raw: Vec<u8>, width: u32, height: u32) -> (img: photon_rs::PhotonImage)
    ensures
        img_pixels(img) == raw@,
        img_width(img) == width,
        img_height(img) == height,
{
    photon_rs::PhotonImage::new(raw, width, height)
}

/// Relies on photon's `PhotonImage::get_raw_pixels`: it returns the stored
/// buffer.
#[verifier::external_body]
fn photon_raw_pixels(img: &photon_rs::PhotonImage) -> (r: Vec<u8>)
    ensures
        r@ == img_pixels(*img),
{
    img.get_raw_pixels()
}

/// Relies on photon's `PhotonImage::get_width`.
#[verifier::external_body]
fn photon_get_width(img: &photon_rs::PhotonImage) -> (r: u32)
    ensures
        r == img_width(*img),
{
    img.get_width()
}

/// Relies on photon's `PhotonImage::get_height`.
#[verifier::external_body]
fn photon_get_height(img: &photon_rs::PhotonImage) -> (r: u32)
    ensures
        r == img_height(*img),
{
    img.get_height()
}

/// Relies on photon's `transform::resize`: it resamples to exactly the
/// target size, and the result depends only on the buffer, the sizes and the
/// sampling filter.
#[verifier::external_body]
fn photon_resize_call(
    img: &photon_rs::PhotonImage,
    width: u32,
    height: u32,
    filter: SampleFilter,
) -> (r: photon_rs::PhotonImage)
    requires
        img_pixels(*img).len() == 4 * img_width(*img) * img_height(*img),
        1 <= width,
        1 <= height,
    ensures
        img_width(r) == width,
        img_height(r) == height,
        img_pixels(r).len() == 4 * width * height,
        img_pixels(r) == photon_resize_fn(
            img_pixels(*img),
            img_width(*img),
            img_height(*img),
            width,
            height,
            photon_sampling_code(filter),
        ),
{
    let f = match filter {
        SampleFilter::Undefined | SampleFilter::Nearest => {
            photon_rs::transform::SamplingFilter::Nearest
        },
        SampleFilter::Triangle => photon_rs::transform::SamplingFilter::Triangle,
        SampleFilter::CatmullRom => photon_rs::transform::SamplingFilter::CatmullRom,
        SampleFilter::Gaussian => photon_rs::transform::SamplingFilter::Gaussian,
        SampleFilter::Lanczos3 => photon_rs::transform::SamplingFilter::Lanczos3,
    };
    photon_rs::transform::resize(img, width, height, f)
}

/// Relies on photon's `transform::seam_carve`: it carves each dimension down
/// to the target and never grows past the current size; the sampling filter
/// plays no part in it. The seam search walks rows and columns of the
/// source, so the source must not be empty in either dimension.
#[verifier::external_body]
fn photon_seam_carve_call(img: &photon_rs::PhotonImage, width: u32, height: u32) -> (r:
    photon_rs::PhotonImage)
    requires
        img_pixels(*img).len() == 4 * img_width(*img) * img_height(*img),
        1 <= img_width(*img),
        1 <= img_height(*img),
        1 <= width,
        1 <= height,
    ensures
        img_width(r) == (if img_width(*img) < width { img_width(*img) } else { width }),
        img_height(r) == (if img_height(*img) < height { img_height(*img) } else { height }),
        img_pixels(r).len() == 4 * img_width(r) * img_height(r),
        img_pixels(r) == photon_seam_fn(
            img_pixels(*img),
            img_width(*img),
            img_height(*img),
            width,
            height,
        ),
{
    photon_rs::transform::seam_carve(img, width, height)
}

/// Relies on photon's `filters::filter`: for the names used here it
/// recolours pixels in place, keeping the buffer size, and the result
/// depends only on the buffer and the name.
#[verifier::external_body]
fn photon_filter_call(img: &mut photon_rs::PhotonImage, name: &str)
    requires
        img_pixels(*old(img)).len() == 4 * img_width(*old(img)) * img_height(*old(img)),
        name@ == "oceanic"@ || name@ == "islands"@ || name@ == "marine"@,
    ensures
        img_width(*final(img)) == img_width(*old(img)),
        img_height(*final(img)) == img_height(*old(img)),
        img_pixels(*final(img)).len() == img_pixels(*old(img)).len(),
        img_pixels(*final(img)) == photon_filter_fn(img_pixels(*old(img)), name@),
{
    photon_rs::filters::filter(img, name)
}

/// Relies on photon's `native::open_image_from_bytes`: it accepts or rejects
/// source bytes deterministically, and on success the stored buffer is the
/// decoded image's RGBA bytes, four per pixel of the decoded size.
#[verifier::external_body]
fn photon_load_call(data: &[u8]) -> (r: Option<photon_rs::PhotonImage>)
    ensures
        r is Some <==> load_ok(data@),
        r matches Some(img) ==> img_pixels(img) == load_pixels(data@) && img_width(img)
            == load_width(data@) && img_height(img) == load_height(data@) && img_pixels(
            img,
        ).len() == 4 * img_width(img) * img_height(img),
{
    match photon_rs::native::open_image_from_bytes(data) {
        Ok(img) => Some(img),
        Err(_) => None,
    }
}

/// Relies on the image crate's PNG and JPEG encoders: the output bytes are a
/// function of the pixel buffer, its size and the chosen format.
#[verifier::external_body]
fn photon_render_call(img: photon_rs::PhotonImage, format: &OutputFormat) -> (r: Vec<u8>)
    requires
        img_pixels(img).len() == 4 * img_width(img) * img_height(img),
    ensures
        r@ == photon_render_fn(img_pixels(img), img_width(img), img_height(img), format_code(
            *format,
        )),
{
    let (w, h) = (img.get_width(), img.get_height());
    let raw = image::RgbaImage::from_raw(w, h, img.get_raw_pixels()).unwrap();
    let buf = image::DynamicImage::ImageRgba8(raw);
    let mut out = std::io::Cursor::new(Vec::new());
    let _ = match format {
        OutputFormat::Png => buf.write_to(&mut out, image::ImageOutputFormat::Png),
        OutputFormat::Jpeg(q) => image::DynamicImage::ImageRgb8(buf.to_rgb8())
            .write_to(&mut out, image::ImageOutputFormat::Jpeg(*q)),
    };
    out.into_inner()
}

/// Photon's semantics of a resize step.
pub open spec fn resize_step(st: EngineState, r: Resize) -> EngineState {
    match r.rtype {
        ResizeType::Normal => EngineState {
            pixels: photon_resize_fn(
                st.pixels,
                st.width,
                st.height,
                r.width,
                r.height,
                photon_sampling_code(r.filter),
            ),
            width: r.width,
            height: r.height,
        },
        ResizeType::SeamCarve => EngineState {
            pixels: photon_seam_fn(st.pixels, st.width, st.height, r.width, r.height),
            width: if st.width < r.width { st.width } else { r.width },
            height: if st.height < r.height { st.height } else { r.height },
        },
    }
}

/// Photon's semantics of a named-filter step: the sentinel is a no-op.
pub open spec fn filter_step(st: EngineState, f: Filter) -> EngineState {
    match filter_key(f) {
        None => st,
        Some(name) => EngineState { pixels: photon_filter_fn(st.pixels, name), ..st },
    }
}

/// Photon's semantics of one pipeline step: dispatch by operation kind; an
/// unrecognized step is a no-op.
pub open spec fn photon_step(st: EngineState, s: Spec) -> EngineState {
    match s.data {
        None => st,
        Some(SpecData::Resize(r)) => resize_step(st, r),
        Some(SpecData::Filter(f)) => filter_step(st, f),
    }
}

/// Photon's `run`: the validated fold of `photon_step`.
pub open spec fn photon_run(st: EngineState, specs: Seq<Spec>) -> Result<EngineState, EngineState>
    decreases specs.len(),
{
    if specs.len() == 0 {
        Ok(st)
    } else if !spec_op_ok(specs[0]) {
        Err(st)
    } else {
        photon_run(photon_step(st, specs[0]), specs.drop_first())
    }
}

/// The concrete engine: a photon pixel buffer, consumed once.
pub struct Photon {
    img: photon_rs::PhotonImage,
}

impl Photon {
    /// Wraps an RGBA buffer of exactly `4 * width * height` bytes; an image
    /// must have at least one pixel in each dimension.
    pub fn from_raw_pixels(raw: Vec<u8>, width: u32, height: u32) -> (p: Photon)
        requires
            raw@.len() == 4 * width * height,
            1 <= width,
            1 <= height,
        ensures
            p.inv(),
            p.state() == (EngineState { pixels: raw@, width, height }),
    {
        Photon { img: photon_new(raw, width, height) }
    }

    /// Loads source image bytes through the container decoder. Bytes no
    /// decoder recognizes are reported, never applied, and so is a decode
    /// with no pixels in one of its dimensions.
    pub fn try_from_bytes(data: &[u8]) -> (r: Result<Photon, EngineError>)
        ensures
            r is Ok <==> load_ok(data@) && 1 <= load_width(data@) && 1 <= load_height(data@),
            r matches Ok(p) ==> p.inv() && p.state() == (EngineState {
                pixels: load_pixels(data@),
                width: load_width(data@),
                height: load_height(data@),
            }),
            r matches Err(e) ==> e == EngineError::UnsupportedSourceFormat,
    {
        match photon_load_call(data) {
            Some(img) => {
                let w = photon_get_width(&img);
                let h = photon_get_height(&img);
                if w < 1 || h < 1 {
                    return Err(EngineError::UnsupportedSourceFormat);
                }
                Ok(Photon { img })
            },
            None => Err(EngineError::UnsupportedSourceFormat),
        }
    }

    /// Current pixel width.
    pub fn width(&self) -> (r: u32)
        ensures
            r == self.state().width,
    {
        photon_get_width(&self.img)
    }

    /// Current pixel height.
    pub fn height(&self) -> (r: u32)
        ensures
            r == self.state().height,
    {
        photon_get_height(&self.img)
    }

    /// A copy of the current raw RGBA bytes.
    pub fn raw_pixels(&self) -> (r: Vec<u8>)
        ensures
            r@ == self.state().pixels,
    {
        photon_raw_pixels(&self.img)
    }
}

impl Engine for Photon {
    closed spec fn state(&self) -> EngineState {
        EngineState {
            pixels: img_pixels(self.img),
            width: img_width(self.img),
            height: img_height(self.img),
        }
    }

    closed spec fn inv(&self) -> bool {
        img_pixels(self.img).len() == 4 * img_width(self.img) * img_height(self.img)
            && 1 <= img_width(self.img) && 1 <= img_height(self.img)
    }

    open spec fn step(st: EngineState, s: Spec) -> EngineState {
        photon_step(st, s)
    }

    open spec fn render(st: EngineState, format: OutputFormat) -> Seq<u8> {
        photon_render_fn(st.pixels, st.width, st.height, format_code(format))
    }

    open spec fn run(st: EngineState, specs: Seq<Spec>) -> Result<EngineState, EngineState> {
        photon_run(st, specs)
    }

    proof fn lemma_run(st: EngineState, specs: Seq<Spec>) {
    }

    fn apply(&mut self, specs: &[Spec]) -> (r: Result<(), EngineError>) {
        let n = specs.len();
        let mut i: usize = 0;
        proof {
            assert(specs@.skip(0) =~= specs@);
        }
        while i < n
            invariant
                i <= n == specs@.len(),
                self.inv(),
                photon_run(old(self).state(), specs@) == photon_run(
                    self.state(),
                    specs@.skip(i as int),
                ),
            decreases n - i,
        {
            let sp = specs[i];
            proof {
                assert(specs@.skip(i as int)[0] == specs@[i as int]);
                assert(specs@.skip(i as int).drop_first() =~= specs@.skip(i + 1));
            }
            match sp.data {
                None => {},
                Some(SpecData::Resize(rz)) => {
                    if rz.width < 1 || rz.width > MAX_DIM || rz.height < 1 || rz.height > MAX_DIM {
                        return Err(EngineError::OutOfRangeDimensions);
                    }
                    self.transform(&rz);
                },
                Some(SpecData::Filter(fl)) => {
                    self.transform(&fl);
                },
            }
            i = i + 1;
        }
        proof {
            assert(specs@.skip(n as int) =~= Seq::<Spec>::empty());
        }
        Ok(())
    }

    fn generate(self, format: &OutputFormat) -> (r: Vec<u8>) {
        photon_render_call(self.img, format)
    }
}

impl SpecTransform<Resize> for Photon {
    open spec fn op_ok(op: &Resize) -> bool {
        dims_ok(op.width, op.height)
    }

    open spec fn op_model(st: EngineState, op: &Resize) -> EngineState {
        resize_step(st, *op)
    }

    fn transform(&mut self, op: &Resize) {
        match op.rtype {
            ResizeType::Normal => {
                self.img = photon_resize_call(&self.img, op.width, op.height, op.filter);
            },
            ResizeType::SeamCarve => {
                self.img = photon_seam_carve_call(&self.img, op.width, op.height);
            },
        }
    }
}

impl SpecTransform<Filter> for Photon {
    open spec fn op_ok(op: &Filter) -> bool {
        true
    }

    open spec fn op_model(st: EngineState, op: &Filter) -> EngineState {
        filter_step(st, *op)
    }

    fn transform(&mut self, op: &Filter) {
        match op.to_str() {
            Some(name) => {
                photon_filter_call(&mut self.img, name);
            },
            None => {},
        }
    }
}

/// A seam-carve step never reads the sampling filter: two seam-carve resizes
/// to the same size act identically on every state, whatever filter values
/// their records carry.
pub proof fn lemma_seam_carve_ignores_filter(st: EngineState, a: Resize, b: Resize)
    requires
        a.rtype == ResizeType::SeamCarve,
        b.rtype == ResizeType::SeamCarve,
        a.width == b.width,
        a.height == b.height,
    ensures
        resize_step(st, a) == resize_step(st, b),
{
}

/// The no-op contract: the `Unspecified` filter and an unrecognized step
/// leave the pixel state exactly as it was.
pub proof fn lemma_noop_steps(st: EngineState)
    ensures
        photon_step(st, Spec { data: Some(SpecData::Filter(Filter::Unspecified)) }) == st,
        photon_step(st, Spec { data: None }) == st,
{
}

} // verus!
