//! The image ingestion pipeline.
//!
//! An upload arrives as raw bytes with a declared MIME type. The pipeline
//! decodes it, bounds both variants (full and thumbnail) to their configured
//! box while preserving aspect ratio, derives the content identifier from a
//! perceptual hash of the full variant, and records the result in the store
//! index with the dedup fast path. Decoding, pixel resampling and the
//! perceptual hash itself are the `image` and `image_hasher` crates' work,
//! called through the trusted wrappers below; every decision around them —
//! target dimensions, identifier derivation, dedup — is verified here.
use vstd::prelude::*;
use vstd::arithmetic::div_mod::{lemma_fundamental_div_mod, lemma_mod_bound};
use vstd::string::StringSliceAdditionalSpecFns;

use crate::store::{spec_insert_img, ImgStore};
use crate::wire::dec_digits;
use crate::{ImgId, LobbyId, RoomId};

verus! {

/// Which of the two stored variants of an image is addressed.
#[derive(PartialEq, Eq, Structural)]
pub enum ImgType {
    Big,
    Thumb,
}

#[verifier::external_type_specification]
#[verifier::external_body]
pub struct ExDynamicImage(image::DynamicImage);

/// The decoder knows an image format under this MIME type.
pub uninterp spec fn mime_format_known(m: Seq<char>) -> bool;

/// The bytes decode as an image under the format the MIME type names.
pub uninterp spec fn image_decodes(b: Seq<u8>, m: Seq<char>) -> bool;

/// Relies on image::ImageFormat::from_mime_type: whether a MIME type names
/// a format, a function of the type string alone.
#[verifier::external_body]
fn mime_known(m: &String) -> (r: bool)
    ensures
        r == mime_format_known(m@),
{
    image::ImageFormat::from_mime_type(m).is_some()
}

/// Relies on image::ImageFormat::from_mime_type and
/// image::load_from_memory_with_format: both are functions of their
/// arguments alone, so whether the bytes decode under the declared type is
/// a function of the two. Nothing is promised of the pixels themselves.
#[verifier::external_body]
fn decode_image(bytes: &Vec<u8>, mime: &String) -> (r: Option<image::DynamicImage>)
    ensures
        r is Some == (mime_format_known(mime@) && image_decodes(bytes@, mime@)),
{
    let format = image::ImageFormat::from_mime_type(mime)?;
    image::load_from_memory_with_format(bytes.as_slice(), format).ok()
}

/// Relies on image::GenericImageView::dimensions for the pixel size of a
/// decoded image.
#[verifier::external_body]
fn image_dims(img: &image::DynamicImage) -> (u32, u32) {
    image::GenericImageView::dimensions(img)
}

/// A decoded raster image together with its pixel dimensions.
pub struct Raster {
    img: image::DynamicImage,
    width: u32,
    height: u32,
}

impl Raster {
    pub closed spec fn spec_width(self) -> u32 {
        self.width
    }

    pub closed spec fn spec_height(self) -> u32 {
        self.height
    }

    pub fn width(&self) -> (r: u32)
        ensures
            r == self.spec_width(),
    {
        self.width
    }

    pub fn height(&self) -> (r: u32)
        ensures
            r == self.spec_height(),
    {
        self.height
    }

    /// The decoded pixels, for the shell to encode and persist.
    pub fn image(&self) -> &image::DynamicImage {
        &self.img
    }
}

/// Relies on image::DynamicImage::resize_exact: the result has exactly the
/// requested dimensions (aspect ratio is this crate's concern, not the
/// resampler's). Uses the triangle filter, an area-averaging resampler.
#[verifier::external_body]
fn resize_exact_raster(r: &Raster, width: u32, height: u32) -> (res: Raster)
    ensures
        res.spec_width() == width,
        res.spec_height() == height,
{
    Raster {
        img: r.img.resize_exact(width, height, image::imageops::FilterType::Triangle),
        width,
        height,
    }
}

/// Relies on image::DynamicImage's Clone: the copy shows the same pixels,
/// so it keeps the recorded dimensions.
#[verifier::external_body]
pub(crate) fn clone_raster(r: &Raster) -> (res: Raster)
    ensures
        res.spec_width() == r.spec_width(),
        res.spec_height() == r.spec_height(),
{
    Raster { img: r.img.clone(), width: r.width, height: r.height }
}

/// What the perceptual blockhash of a raster yields; a function of the
/// raster value alone.
pub uninterp spec fn raster_hash(r: Raster) -> Seq<u8>;

/// Relies on image_hasher's blockhash (8×4 grid) being a deterministic
/// function of the image's pixels — that is all [`raster_hash`] stands
/// for; the identifier derivation below is verified for every value of the
/// hash bytes.
#[verifier::external_body]
fn blockhash_bytes(r: &Raster) -> (h: Vec<u8>)
    ensures
        h@ == raster_hash(*r),
{
    let hasher = image_hasher::HasherConfig::new().hash_alg(
        image_hasher::HashAlg::Blockhash,
    ).hash_size(8, 4).to_hasher();
    hasher.hash_image(&r.img).as_bytes().to_vec()
}

/// Decodes an upload: the declared content type names the format, and the
/// bytes are decoded under it. Succeeds exactly when a type is declared,
/// the decoder knows it, and the bytes decode under it; the three
/// rejections are the original's.
pub fn read_img(bytes: &Vec<u8>, mime: Option<&String>) -> (r: Result<Raster, &'static str>)
    ensures
        r is Ok ==> (mime matches Some(m) && mime_format_known(m@) && image_decodes(bytes@, m@)),
        (mime matches Some(m) && mime_format_known(m@) && image_decodes(bytes@, m@)) ==> r is Ok,
        mime is None ==> (r matches Err(e) && e@ == "Can't read image format"@),
        (mime matches Some(m) && !mime_format_known(m@)) ==> (r matches Err(e) && e@
            == "Unknown image format"@),
        r matches Err(e) ==> e@ == "Can't read image format"@ || e@ == "Unknown image format"@
            || e@ == "Image corrupt"@,
{
    let mime = match mime {
        None => {
            return Err("Can't read image format");
        },
        Some(m) => m,
    };
    if !mime_known(mime) {
        return Err("Unknown image format");
    }
    match decode_image(bytes, mime) {
        None => Err("Image corrupt"),
        Some(img) => {
            let (width, height) = image_dims(&img);
            Ok(Raster { img, width, height })
        },
    }
}

/// The dimensions that fit `(w, h)` into the box `(maxw, maxh)` while
/// preserving aspect ratio: the binding axis takes its bound, the other is
/// scaled by the same ratio, rounded half-up, and clamped to at least one
/// pixel.
pub open spec fn spec_fit(w: int, h: int, maxw: int, maxh: int) -> (int, int) {
    if w * maxh <= h * maxw {
        let q = (2 * (w * maxh) + h) / (2 * h);
        (
            if q < 1 {
                1
            } else {
                q
            },
            maxh,
        )
    } else {
        let q = (2 * (h * maxw) + w) / (2 * w);
        (
            maxw,
            if q < 1 {
                1
            } else {
                q
            },
        )
    }
}

/// Half-up rounding of `a / b` stays within the expected bound.
proof fn lemma_round_div_le(a: int, b: int, m: int)
    requires
        b >= 1,
        a <= b * m,
        m >= 1,
    ensures
        (2 * a + b) / (2 * b) <= m,
        (2 * a + b) / (2 * b) >= 0 || a < 0,
{
    let x = 2 * a + b;
    let d = 2 * b;
    lemma_fundamental_div_mod(x, d);
    lemma_mod_bound(x, d);
    let q = x / d;
    assert(d * q == x - x % d);
    assert(d * q <= x);
    assert(x <= 2 * (b * m) + b);
    assert(q <= m) by (nonlinear_arith)
        requires
            d == 2 * b,
            b >= 1,
            d * q <= 2 * (b * m) + b,
    ;
    if a >= 0 {
        assert(x >= 0);
        assert(d * q > x - d);
        assert(q >= 0) by (nonlinear_arith)
            requires
                d >= 2,
                d * q > x - d,
                x >= 0,
        ;
    }
}

/// Size bound: fitting any positive size into a positive box yields
/// positive dimensions within the box, with the binding axis exactly at its
/// bound.
pub proof fn lemma_fit_in_bounds(w: int, h: int, maxw: int, maxh: int)
    requires
        w >= 1,
        h >= 1,
        maxw >= 1,
        maxh >= 1,
    ensures
        ({
            let (nw, nh) = spec_fit(w, h, maxw, maxh);
            &&& 1 <= nw <= maxw
            &&& 1 <= nh <= maxh
            &&& (nw == maxw || nh == maxh)
        }),
{
    if w * maxh <= h * maxw {
        lemma_round_div_le(w * maxh, h, maxw);
        assert(w * maxh >= 0) by (nonlinear_arith)
            requires
                w >= 1,
                maxh >= 1,
        ;
    } else {
        lemma_round_div_le(h * maxw, w, maxh);
        assert(h * maxw >= 0) by (nonlinear_arith)
            requires
                h >= 1,
                maxw >= 1,
        ;
    }
}

/// Aspect preservation: on the scaled axis the result differs from the
/// exact ratio by at most half a pixel (stated cross-multiplied; the clamp
/// to one pixel is exempt).
pub proof fn lemma_fit_aspect(w: int, h: int, maxw: int, maxh: int)
    requires
        w >= 1,
        h >= 1,
        maxw >= 1,
        maxh >= 1,
    ensures
        w * maxh <= h * maxw && 2 * (w * maxh) >= h ==> ({
            let (nw, nh) = spec_fit(w, h, maxw, maxh);
            &&& nh == maxh
            &&& -h < 2 * (nw * h) - 2 * (w * maxh) <= h
        }),
        w * maxh > h * maxw && 2 * (h * maxw) >= w ==> ({
            let (nw, nh) = spec_fit(w, h, maxw, maxh);
            &&& nw == maxw
            &&& -w < 2 * (nh * w) - 2 * (h * maxw) <= w
        }),
{
    if w * maxh <= h * maxw && 2 * (w * maxh) >= h {
        let a = w * maxh;
        let x = 2 * a + h;
        let d = 2 * h;
        lemma_fundamental_div_mod(x, d);
        lemma_mod_bound(x, d);
        let q = x / d;
        assert(d * q == x - x % d);
        assert(x - d < d * q <= x);
        assert(q >= 1) by (nonlinear_arith)
            requires
                d == 2 * h,
                h >= 1,
                d * q > x - d,
                x == 2 * a + h,
                2 * a >= h,
        ;
        assert(2 * (q * h) - 2 * a <= h) by (nonlinear_arith)
            requires
                d == 2 * h,
                x == 2 * a + h,
                d * q <= x,
        ;
        assert(-h < 2 * (q * h) - 2 * a) by (nonlinear_arith)
            requires
                d == 2 * h,
                x == 2 * a + h,
                d * q > x - d,
        ;
    }
    if w * maxh > h * maxw && 2 * (h * maxw) >= w {
        let a = h * maxw;
        let x = 2 * a + w;
        let d = 2 * w;
        lemma_fundamental_div_mod(x, d);
        lemma_mod_bound(x, d);
        let q = x / d;
        assert(d * q == x - x % d);
        assert(x - d < d * q <= x);
        assert(q >= 1) by (nonlinear_arith)
            requires
                d == 2 * w,
                w >= 1,
                d * q > x - d,
                x == 2 * a + w,
                2 * a >= w,
        ;
        assert(2 * (q * w) - 2 * a <= w) by (nonlinear_arith)
            requires
                d == 2 * w,
                x == 2 * a + w,
                d * q <= x,
        ;
        assert(-w < 2 * (q * w) - 2 * a) by (nonlinear_arith)
            requires
                d == 2 * w,
                x == 2 * a + w,
                d * q > x - d,
        ;
    }
}

proof fn lemma_u32_mul_bound(x: int, y: int)
    requires
        0 <= x <= 0xffff_ffff,
        0 <= y <= 0xffff_ffff,
    ensures
        0 <= x * y <= 0xffff_ffff * 0xffff_ffff,
{
    assert(0 <= x * y <= 0xffff_ffff * 0xffff_ffff) by (nonlinear_arith)
        requires
            0 <= x <= 0xffff_ffff,
            0 <= y <= 0xffff_ffff,
    ;
}

/// Computes the in-bounds dimensions of [`spec_fit`].
fn fit_dimensions(w: u32, h: u32, max_width: u32, max_height: u32) -> (r: (u32, u32))
    requires
        w >= 1,
        h >= 1,
        max_width >= 1,
        max_height >= 1,
    ensures
        (r.0 as int, r.1 as int) == spec_fit(w as int, h as int, max_width as int, max_height as int),
        1 <= r.0 <= max_width,
        1 <= r.1 <= max_height,
{
    proof {
        lemma_fit_in_bounds(w as int, h as int, max_width as int, max_height as int);
    }
    let wu = w as u128;
    let hu = h as u128;
    let mwu = max_width as u128;
    let mhu = max_height as u128;
    proof {
        lemma_u32_mul_bound(wu as int, mhu as int);
        lemma_u32_mul_bound(hu as int, mwu as int);
        lemma_u32_mul_bound(hu as int, mhu as int);
        lemma_u32_mul_bound(wu as int, mwu as int);
    }
    if wu * mhu <= hu * mwu {
        let q = (2 * (wu * mhu) + hu) / (2 * hu);
        let nw: u32 = if q < 1 {
            1
        } else {
            proof {
                lemma_round_div_le(w as int * max_height as int, h as int, max_width as int);
            }
            q as u32
        };
        (nw, max_height)
    } else {
        let q = (2 * (hu * mwu) + wu) / (2 * wu);
        let nh: u32 = if q < 1 {
            1
        } else {
            proof {
                lemma_round_div_le(h as int * max_width as int, w as int, max_height as int);
            }
            q as u32
        };
        (max_width, nh)
    }
}

/// Bounds an image to a box: an image already within bounds (or one with a
/// degenerate zero dimension) passes through unchanged — no upscaling,
/// ever; anything larger is resampled to the aspect-preserving dimensions
/// of [`spec_fit`].
pub fn resize_image(img: Raster, max_width: u32, max_height: u32) -> (r: Raster)
    requires
        max_width >= 1,
        max_height >= 1,
    ensures
        img.spec_width() <= max_width && img.spec_height() <= max_height ==> r == img,
        img.spec_width() == 0 || img.spec_height() == 0 ==> r == img,
        !(img.spec_width() <= max_width && img.spec_height() <= max_height)
            && img.spec_width() >= 1 && img.spec_height() >= 1 ==> {
            let (nw, nh) = spec_fit(
                img.spec_width() as int,
                img.spec_height() as int,
                max_width as int,
                max_height as int,
            );
            &&& r.spec_width() == nw
            &&& r.spec_height() == nh
            &&& r.spec_width() <= max_width
            &&& r.spec_height() <= max_height
        },
{
    let w = img.width();
    let h = img.height();
    if w == 0 || h == 0 {
        return img;
    }
    if w > max_width || h > max_height {
        let (nw, nh) = fit_dimensions(w, h, max_width, max_height);
        return resize_exact_raster(&img, nw, nh);
    }
    img
}

/// What an image hash yields as content identifier: its first four bytes
/// read as a little-endian 32-bit value, missing bytes as zero.
pub open spec fn spec_hash_prefix(b: Seq<u8>) -> int {
    hash_byte(b, 0) + 256 * (hash_byte(b, 1) + 256 * (hash_byte(b, 2) + 256 * hash_byte(b, 3)))
}

pub open spec fn hash_byte(b: Seq<u8>, i: int) -> int {
    if i < b.len() {
        b[i] as int
    } else {
        0
    }
}

/// Derives the 32-bit content identifier from a hash's bytes.
pub fn hash_to_u32(hash_bytes: &Vec<u8>) -> (r: u32)
    ensures
        r as int == spec_hash_prefix(hash_bytes@),
{
    let b0: u32 = if hash_bytes.len() > 0 {
        hash_bytes[0] as u32
    } else {
        0
    };
    let b1: u32 = if hash_bytes.len() > 1 {
        hash_bytes[1] as u32
    } else {
        0
    };
    let b2: u32 = if hash_bytes.len() > 2 {
        hash_bytes[2] as u32
    } else {
        0
    };
    let b3: u32 = if hash_bytes.len() > 3 {
        hash_bytes[3] as u32
    } else {
        0
    };
    b0 + 256 * (b1 + 256 * (b2 + 256 * b3))
}

/// Outcome of recording an upload: newly stored, the dedup fast path, or a
/// storage failure (reported by the shell's durable mirror, never by the
/// index itself).
pub enum SaveImageResult {
    Saved(ImgId),
    ImageAlreadyExists(ImgId),
    Failed(String),
}

/// Derives the content identifier of the full variant and records it under
/// `(lobby, room)`. The reported id is always the hash-derived identifier
/// of `img` — content addressing, so re-uploading visually-identical
/// content yields the same id. When the identifier already exists there,
/// nothing changes and the existing id is reported.
pub fn save_img(
    store: &mut ImgStore,
    img: &Raster,
    lobby_id: LobbyId,
    room_id: RoomId,
) -> (r: SaveImageResult)
    requires
        old(store).wf(),
    ensures
        final(store).wf(),
        (match r {
            SaveImageResult::Saved(id) => {
                &&& id as int == spec_hash_prefix(raster_hash(*img))
                &&& !old(store).spec_has_img(lobby_id, room_id, id)
                &&& final(store)@ == spec_insert_img(old(store)@, lobby_id, room_id, id)
                &&& final(store).spec_has_img(lobby_id, room_id, id)
            },
            SaveImageResult::ImageAlreadyExists(id) => {
                &&& id as int == spec_hash_prefix(raster_hash(*img))
                &&& old(store).spec_has_img(lobby_id, room_id, id)
                &&& final(store)@ == old(store)@
            },
            SaveImageResult::Failed(_) => false,
        }),
{
    let hash = blockhash_bytes(img);
    let img_id = hash_to_u32(&hash);
    if store.has_img(lobby_id, room_id, img_id) {
        return SaveImageResult::ImageAlreadyExists(img_id);
    }
    let fresh = store.insert_img(lobby_id, room_id, img_id);
    proof {
        crate::store::lemma_dedup_idempotent(old(store)@, lobby_id, room_id, img_id);
    }
    SaveImageResult::Saved(img_id)
}

/// The filename under which an image id is stored, `<id>.webp`.
pub fn img_id_to_filename(img_id: ImgId) -> (r: Vec<u8>)
    ensures
        r@ == dec_digits(img_id as nat) + ".webp".spec_bytes(),
{
    let mut out = crate::wire::u64_dec(img_id as u64);
    crate::wire::lit_into(&mut out, ".webp");
    out
}

} // verus!
