//! Watching the system clipboard for new text and images. Each look
//! compares fingerprints (length and hash) with the last content seen; the
//! shell's own writes can be skipped once. New images are stored as PNG
//! with a thumbnail at most 200 pixels on its long side. Reading the
//! clipboard is left to the shell.

use vstd::prelude::*;
use vstd::utf8::encode_utf8;
use crate::shared::state::AppState;
use crate::shared::database::DbView;

verus! {

/// What `std`'s default hasher (`DefaultHasher::new`) gives for a byte
/// slice hashed with `Hash`.
pub uninterp spec fn default_hash_of_bytes(bytes: Seq<u8>) -> u64;

/// The fingerprint hash of `bytes`.
///
/// Calls `Hash::hash` on the slice with a fresh
/// `std::collections::hash_map::DefaultHasher` and `Hasher::finish`. The
/// default hasher starts from fixed keys, so the result depends on the
/// bytes alone; the contract names it [`default_hash_of_bytes`].
#[verifier::external_body]
pub fn content_hash(bytes: &[u8]) -> (r: u64)
    ensures
        r == default_hash_of_bytes(bytes@),
{
    let mut hasher = std::collections::hash_map::DefaultHasher::new();
    std::hash::Hash::hash(bytes, &mut hasher);
    std::hash::Hasher::finish(&hasher)
}

/// The PNG that the `image` crate writes for an RGBA buffer of the given
/// size, or `None` when it refuses the buffer.
pub uninterp spec fn png_of_rgba(width: u32, height: u32, rgba: Seq<u8>) -> Option<Seq<u8>>;

/// Encodes an RGBA buffer as PNG.
///
/// Calls `image::ImageBuffer::from_raw` (which refuses a buffer shorter than
/// 4 bytes per pixel) and `ImageBuffer::write_to` with the PNG format into
/// memory. The contract claims the refusal of a short buffer, as
/// `from_raw`'s source shows, and names the outcome, which depends on the
/// size and the pixels alone: the PNG, or `None` for a refusal (the error
/// text is the crate's).
#[verifier::external_body]
fn encode_rgba_to_png(width: u32, height: u32, rgba: &[u8]) -> (r: Result<Vec<u8>, String>)
    ensures
        rgba@.len() < 4 * width * height ==> r is Err,
        match r {
            Ok(b) => png_of_rgba(width, height, rgba@) == Some(b@),
            Err(_) => png_of_rgba(width, height, rgba@) is None,
        },
{
    let buf: image::ImageBuffer<image::Rgba<u8>, Vec<u8>> = match image::ImageBuffer::from_raw(width, height, rgba.to_vec()) {
        Some(b) => b,
        None => return Err(format!("Invalid image buffer: {}x{} with {} bytes", width, height, rgba.len())),
    };
    let mut out: Vec<u8> = Vec::new();
    match buf.write_to(&mut std::io::Cursor::new(&mut out), image::ImageFormat::Png) {
        Ok(()) => Ok(out),
        Err(e) => Err(format!("PNG encode failed: {}", e)),
    }
}

/// The RGBA buffer that the `image` crate's Lanczos3 resizing makes of an
/// RGBA image at a new size.
pub uninterp spec fn lanczos3_resized(width: u32, height: u32, rgba: Seq<u8>, new_width: u32, new_height: u32) -> Seq<u8>;

/// Resizes an RGBA image with the Lanczos3 filter.
///
/// Calls `image::RgbaImage::from_raw` and `image::imageops::resize`. The
/// contract claims, as their source shows, that a buffer shorter than 4
/// bytes per pixel is refused and that the result holds 4 bytes per pixel
/// of the new size; it names the pixels. The buffers the resizing makes
/// (the old width by the new height, then the new size) must have sizes
/// that fit `usize`, or it panics.
#[verifier::external_body]
fn resize_rgba(width: u32, height: u32, rgba: Vec<u8>, new_width: u32, new_height: u32) -> (r: Option<Vec<u8>>)
    requires
        4 * width * new_height <= usize::MAX,
        4 * new_width * new_height <= usize::MAX,
    ensures
        (r is Some) == (rgba@.len() >= 4 * width * height),
        r matches Some(b) ==> b@ == lanczos3_resized(width, height, rgba@, new_width, new_height) && b@.len() == 4
            * new_width * new_height,
{
    let img = image::RgbaImage::from_raw(width, height, rgba)?;
    let resized = image::imageops::resize(&img, new_width, new_height, image::imageops::FilterType::Lanczos3);
    Some(resized.into_raw())
}

/// The size and RGBA pixels that the `image` crate decodes from an encoded
/// image, or `None` when it cannot decode it.
pub uninterp spec fn rgba_of_image(encoded: Seq<u8>) -> Option<(u32, u32, Seq<u8>)>;

/// Decodes an encoded image (PNG, the format the `image` crate is built
/// with here) to RGBA pixels.
///
/// Calls `image::load_from_memory` and `DynamicImage::to_rgba8`. The
/// contract names the outcome, which depends on the bytes alone: the
/// decoded size and pixels, or `None` when decoding fails (the error text
/// is the crate's message).
#[verifier::external_body]
fn decode_rgba(encoded: &[u8]) -> (r: Result<(u32, u32, Vec<u8>), String>)
    ensures
        match r {
            Ok((w, h, px)) => rgba_of_image(encoded@) == Some((w, h, px@)),
            Err(_) => rgba_of_image(encoded@) is None,
        },
{
    match image::load_from_memory(encoded) {
        Ok(img) => {
            let rgba = img.to_rgba8();
            let (w, h) = rgba.dimensions();
            Ok((w, h, rgba.into_raw()))
        },
        Err(e) => Err(e.to_string()),
    }
}

/// The picture to put on the clipboard for a stored image: its size and
/// RGBA pixels (see [`rgba_of_image`]), or why it could not be decoded
/// when the bytes are no image the `image` crate reads.
pub fn decode_for_clipboard(encoded: &[u8]) -> (r: Result<(u32, u32, Vec<u8>), String>)
    ensures
        match rgba_of_image(encoded@) {
            Some((w, h, px)) => r matches Ok((rw, rh, rpx)) && rw == w && rh == h && rpx@ == px,
            None => r is Err,
        },
{
    decode_rgba(encoded)
}

/// The thumbnail's size for an image of `width` by `height`: 200 pixels
/// on the longer side and the other in proportion, rounded down (an empty
/// image gives 0 by 200).
pub open spec fn thumb_dims(width: nat, height: nat) -> (nat, nat) {
    if width > height {
        (200, 200 * height / width)
    } else if height == 0 {
        (0, 200)
    } else {
        (200 * width / height, 200)
    }
}

/// The thumbnail's size (see [`thumb_dims`]).
pub fn thumbnail_size(width: u32, height: u32) -> (r: (u32, u32))
    ensures
        r.0 == thumb_dims(width as nat, height as nat).0,
        r.1 == thumb_dims(width as nat, height as nat).1,
        r.0 <= 200 && r.1 <= 200,
{
    if width > height {
        let n: u64 = 200 * (height as u64);
        let d: u64 = width as u64;
        let t: u64 = n / d;
        proof {
            vstd::arithmetic::div_mod::lemma_fundamental_div_mod(n as int, d as int);
            assert(t <= 200) by (nonlinear_arith)
                requires
                    n == d * t + n % d,
                    n % d >= 0,
                    n == 200 * height,
                    height < d,
                    d > 0,
            ;
        }
        (200, t as u32)
    } else if height == 0 {
        (0, 200)
    } else {
        let n: u64 = 200 * (width as u64);
        let d: u64 = height as u64;
        let t: u64 = n / d;
        proof {
            vstd::arithmetic::div_mod::lemma_fundamental_div_mod(n as int, d as int);
            assert(t <= 200) by (nonlinear_arith)
                requires
                    n == d * t + n % d,
                    n % d >= 0,
                    n == 200 * width,
                    width <= d,
                    d > 0,
            ;
        }
        (t as u32, 200)
    }
}

/// The larger of `x` and 1.
pub open spec fn at_least_one(x: nat) -> nat {
    if x == 0 {
        1
    } else {
        x
    }
}

/// Whether the work buffers of a thumbnail for an image `width` pixels
/// wide fit this machine's address space.
pub open spec fn thumb_buffers_fit(width: u32) -> bool {
    width * 800 <= usize::MAX
}

/// The thumbnail's PNG for an RGBA image: the image resized with Lanczos3
/// to [`thumb_dims`] (at least 1 pixel each way), encoded as PNG; empty
/// when the encoder refuses it or its work buffers do not fit.
pub open spec fn thumbnail_png(width: u32, height: u32, rgba: Seq<u8>) -> Seq<u8> {
    let (tw, th) = thumb_dims(width as nat, height as nat);
    let tw1 = at_least_one(tw) as u32;
    let th1 = at_least_one(th) as u32;
    if thumb_buffers_fit(width) {
        match png_of_rgba(tw1, th1, lanczos3_resized(width, height, rgba, tw1, th1)) {
            Some(b) => b,
            None => Seq::empty(),
        }
    } else {
        Seq::empty()
    }
}

/// Stores a new clipboard image at time `now`: it is encoded as PNG and,
/// with its thumbnail (see [`thumbnail_png`]), added to the store as an
/// `image/png` record, its size taken as `i32` (wrapping, as a cast does).
/// Returns whether the store took it; nothing changes
/// when the image cannot be encoded, or its PNG is longer than a record's
/// size can say.
pub fn store_clipboard_image(state: &mut AppState, rgba: Vec<u8>, width: u32, height: u32, now: i64) -> (r: bool)
    requires
        old(state).wf(),
    ensures
        final(state).wf(),
        rgba@.len() < 4 * width * height ==> !r && final(state).db@ == old(state).db@,
        match png_of_rgba(width, height, rgba@) {
            None => !r && final(state).db@ == old(state).db@,
            Some(png) => if png.len() > i64::MAX {
                !r && final(state).db@ == old(state).db@
            } else {
                let (res, v) = old(state).db@.insert_image(
                    png,
                    thumbnail_png(width, height, rgba@),
                    "image/png"@,
                    width as i32,
                    height as i32,
                    now,
                );
                final(state).db@ == v && r == res is Ok
            },
        },
        final(state).max_history_size == old(state).max_history_size,
        final(state).is_window_visible == old(state).is_window_visible,
        final(state).device_id == old(state).device_id,
{
    let png = match encode_rgba_to_png(width, height, rgba.as_slice()) {
        Ok(b) => b,
        Err(_) => {
            return false;
        },
    };
    let ghost pixels = rgba@;
    let (tw, th) = thumbnail_size(width, height);
    let tw1: u32 = if tw == 0 { 1 } else { tw };
    let th1: u32 = if th == 0 { 1 } else { th };
    let fits = match (width as usize).checked_mul(800) {
        Some(_) => true,
        None => false,
    };
    let thumb: Vec<u8> = if fits {
        assert(4 * width * th1 <= usize::MAX && 4 * tw1 * th1 <= usize::MAX) by (nonlinear_arith)
            requires
                width * 800 <= usize::MAX,
                1 <= tw1 <= 200,
                1 <= th1 <= 200,
        ;
        match resize_rgba(width, height, rgba, tw1, th1) {
            Some(small) => match encode_rgba_to_png(tw1, th1, small.as_slice()) {
                Ok(b) => b,
                Err(_) => Vec::new(),
            },
            None => Vec::new(),
        }
    } else {
        Vec::new()
    };
    assert(thumb@ =~= thumbnail_png(width, height, pixels));
    if png.len() as u64 > 0x7FFF_FFFF_FFFF_FFFFu64 {
        return false;
    }
    state.push_image(png.as_slice(), thumb.as_slice(), "image/png", width as i32, height as i32, now).is_some()
}

/// The fingerprints the clipboard watch compares, and what it was told to
/// skip.
#[derive(Debug, Clone, Copy)]
pub struct ClipboardWatch {
    pub last_text_hash: u64,
    pub last_text_len: usize,
    pub last_image_hash: u64,
    pub last_image_size: usize,
    pub skip_next_image: bool,
    pub skip_next_text: bool,
    pub expected_image_hash: u64,
    pub expected_image_size: usize,
    pub last_sequence: u64,
}

/// The watch after one look at the clipboard's `text` and `image` (RGBA
/// bytes), whether the image is new, and whether the text is new.
///
/// Images: when told to skip, the fingerprint of the image the shell wrote
/// is taken as seen; otherwise an image with another fingerprint is new;
/// no image forgets the last one. Whenever an image is skipped or new, the
/// text's fingerprint is taken as seen too. Text: when told to skip, its
/// fingerprint is taken as seen; otherwise non-empty text with another
/// fingerprint is new.
pub open spec fn watch_step(w: ClipboardWatch, text: Option<Seq<char>>, image: Option<Seq<u8>>) -> (
    ClipboardWatch,
    bool,
    bool,
) {
    let text_fp = match text {
        Some(t) => Some((default_hash_of_bytes(encode_utf8(t)), encode_utf8(t).len())),
        None => None,
    };
    let see_text = |x: ClipboardWatch|
        match text_fp {
            Some(fp) => ClipboardWatch { last_text_hash: fp.0, last_text_len: fp.1 as usize, ..x },
            None => x,
        };
    let (w1, new_image) = if w.skip_next_image {
        (
            see_text(
                ClipboardWatch {
                    skip_next_image: false,
                    last_image_hash: w.expected_image_hash,
                    last_image_size: w.expected_image_size,
                    expected_image_hash: 0,
                    expected_image_size: 0,
                    ..w
                },
            ),
            false,
        )
    } else {
        match image {
            Some(b) => {
                let h = default_hash_of_bytes(b);
                if b.len() != w.last_image_size || h != w.last_image_hash {
                    (see_text(ClipboardWatch { last_image_hash: h, last_image_size: b.len() as usize, ..w }), true)
                } else {
                    (w, false)
                }
            },
            None => (ClipboardWatch { last_image_hash: 0, last_image_size: 0, ..w }, false),
        }
    };
    if w1.skip_next_text {
        (see_text(ClipboardWatch { skip_next_text: false, ..w1 }), new_image, false)
    } else {
        match text_fp {
            Some(fp) => if text->0.len() > 0 && (fp.1 != w1.last_text_len || fp.0 != w1.last_text_hash) {
                (see_text(w1), new_image, true)
            } else {
                (w1, new_image, false)
            },
            None => (w1, new_image, false),
        }
    }
}

/// Whether a look at `image` leaves the image side quiet: no image, or the
/// same fingerprint as the last one seen.
pub open spec fn image_unchanged(w: ClipboardWatch, image: Option<Seq<u8>>) -> bool {
    match image {
        Some(b) => b.len() == w.last_image_size && default_hash_of_bytes(b) == w.last_image_hash,
        None => true,
    }
}

/// A look at non-empty text, with nothing to skip and no new image,
/// reports the text as new exactly when its fingerprint (the hash and the
/// length of its UTF-8 bytes) differs from the last one seen, in either
/// part; the text is then taken as seen, so a second look at it reports
/// nothing new.
pub proof fn law_new_text_is_reported(w: ClipboardWatch, t: Seq<char>, image: Option<Seq<u8>>)
    requires
        !w.skip_next_text,
        !w.skip_next_image,
        t.len() > 0,
        encode_utf8(t).len() <= usize::MAX,
        image_unchanged(w, image),
    ensures
        ({
            let h = default_hash_of_bytes(encode_utf8(t));
            let n = encode_utf8(t).len();
            let (w2, new_image, new_text) = watch_step(w, Some(t), image);
            &&& !new_image
            &&& new_text == (h != w.last_text_hash || n != w.last_text_len)
            &&& w2.last_text_hash == h && w2.last_text_len == n
            &&& !watch_step(w2, Some(t), image).1
            &&& !watch_step(w2, Some(t), image).2
        }),
{
}

impl ClipboardWatch {
    /// A watch that has seen nothing.
    pub fn new() -> (r: Self)
        ensures
            r.last_text_hash == 0 && r.last_text_len == 0 && r.last_image_hash == 0 && r.last_image_size == 0,
            !r.skip_next_image && !r.skip_next_text,
            r.expected_image_hash == 0 && r.expected_image_size == 0,
            r.last_sequence == u64::MAX,
    {
        ClipboardWatch {
            last_text_hash: 0,
            last_text_len: 0,
            last_image_hash: 0,
            last_image_size: 0,
            skip_next_image: false,
            skip_next_text: false,
            expected_image_hash: 0,
            expected_image_size: 0,
            last_sequence: u64::MAX,
        }
    }

    /// Takes the clipboard's content at start as seen, so that it is not
    /// taken for a new copy.
    pub fn prime(&mut self, text: &Option<String>, image: &Option<Vec<u8>>)
        ensures
            final(self).last_text_hash == match text {
                Some(t) => default_hash_of_bytes(encode_utf8(t@)),
                None => old(self).last_text_hash,
            },
            final(self).last_text_len == match text {
                Some(t) => encode_utf8(t@).len() as usize,
                None => old(self).last_text_len,
            },
            final(self).last_image_hash == match image {
                Some(b) => default_hash_of_bytes(b@),
                None => old(self).last_image_hash,
            },
            final(self).last_image_size == match image {
                Some(b) => b@.len() as usize,
                None => old(self).last_image_size,
            },
            final(self).skip_next_image == old(self).skip_next_image,
            final(self).skip_next_text == old(self).skip_next_text,
            final(self).expected_image_hash == old(self).expected_image_hash,
            final(self).expected_image_size == old(self).expected_image_size,
            final(self).last_sequence == old(self).last_sequence,
    {
        match text {
            Some(t) => {
                let b = t.as_str().as_bytes();
                self.last_text_hash = content_hash(b);
                self.last_text_len = b.len();
            },
            None => {},
        }
        match image {
            Some(b) => {
                self.last_image_hash = content_hash(b.as_slice());
                self.last_image_size = b.len();
            },
            None => {},
        }
    }

    /// Asks the watch to skip the next image (the shell just wrote one).
    pub fn skip_next_image_detect(&mut self)
        ensures
            *final(self) == (ClipboardWatch { skip_next_image: true, ..*old(self) }),
    {
        self.skip_next_image = true;
    }

    /// Asks the watch to skip the next text (the shell just wrote some).
    pub fn skip_next_text_detect(&mut self)
        ensures
            *final(self) == (ClipboardWatch { skip_next_text: true, ..*old(self) }),
    {
        self.skip_next_text = true;
    }

    /// Records the fingerprint of the image the shell wrote, for the skipped
    /// look to take as seen.
    pub fn expect_image(&mut self, rgba: &[u8])
        ensures
            *final(self) == (ClipboardWatch {
                expected_image_hash: default_hash_of_bytes(rgba@),
                expected_image_size: rgba@.len() as usize,
                ..*old(self)
            }),
    {
        self.expected_image_hash = content_hash(rgba);
        self.expected_image_size = rgba.len();
    }

    /// Whether the clipboard's sequence number moved since the last look;
    /// the new number is kept.
    pub fn sequence_changed(&mut self, sequence: u64) -> (r: bool)
        ensures
            r == (sequence != old(self).last_sequence),
            *final(self) == (ClipboardWatch { last_sequence: sequence, ..*old(self) }),
    {
        let changed = sequence != self.last_sequence;
        self.last_sequence = sequence;
        changed
    }

    /// One look at the clipboard (see [`watch_step`]): returns whether the
    /// image is new and whether the text is new.
    pub fn look(&mut self, text: &Option<String>, image: &Option<Vec<u8>>) -> (r: (bool, bool))
        ensures
            ({
                let (w, ni, nt) = watch_step(
                    *old(self),
                    match text {
                        Some(t) => Some(t@),
                        None => None,
                    },
                    match image {
                        Some(b) => Some(b@),
                        None => None,
                    },
                );
                *final(self) == w && r == (ni, nt)
            }),
    {
        let text_fp: Option<(u64, usize)> = match text {
            Some(t) => {
                let b = t.as_str().as_bytes();
                Some((content_hash(b), b.len()))
            },
            None => None,
        };
        let mut new_image = false;
        if self.skip_next_image {
            self.skip_next_image = false;
            self.last_image_hash = self.expected_image_hash;
            self.last_image_size = self.expected_image_size;
            self.expected_image_hash = 0;
            self.expected_image_size = 0;
            match text_fp {
                Some(fp) => {
                    self.last_text_hash = fp.0;
                    self.last_text_len = fp.1;
                },
                None => {},
            }
        } else {
            match image {
                Some(b) => {
                    let size = b.len();
                    let h = content_hash(b.as_slice());
                    if size != self.last_image_size || h != self.last_image_hash {
                        self.last_image_size = size;
                        self.last_image_hash = h;
                        new_image = true;
                        match text_fp {
                            Some(fp) => {
                                self.last_text_hash = fp.0;
                                self.last_text_len = fp.1;
                            },
                            None => {},
                        }
                    }
                },
                None => {
                    self.last_image_hash = 0;
                    self.last_image_size = 0;
                },
            }
        }
        let mut new_text = false;
        if self.skip_next_text {
            self.skip_next_text = false;
            match text_fp {
                Some(fp) => {
                    self.last_text_hash = fp.0;
                    self.last_text_len = fp.1;
                },
                None => {},
            }
        } else {
            match text {
                Some(t) => {
                    if !t.as_str().is_empty() {
                        let fp = text_fp.unwrap();
                        if fp.1 != self.last_text_len || fp.0 != self.last_text_hash {
                            self.last_text_len = fp.1;
                            self.last_text_hash = fp.0;
                            new_text = true;
                        }
                    }
                },
                None => {},
            }
        }
        (new_image, new_text)
    }
}

} // verus!
