//! Screenshots: the pixel region a node capture keeps, cropping a rendered
//! RGBA buffer to it, encoding the result as PNG, and how the outcome of a
//! capture is reported.
//!
//! Rendering stays with the host; node positions arrive here already
//! converted to whole physical pixels, and the rendered frame as RGBA bytes.

use vstd::prelude::*;

use crate::protocol::CaptureResponse;
use crate::text::{append_decimal, append_str, decimal, owned};

verus! {

/// The viewport size a capture renders at: a zero dimension falls back to
/// 800 wide or 600 high.
pub fn capture_size(width: u32, height: u32) -> (r: (u32, u32))
    ensures
        r.0 == (if width == 0 {
            800
        } else {
            width
        }),
        r.1 == (if height == 0 {
            600
        } else {
            height
        }),
{
    let w = if width == 0 {
        800
    } else {
        width
    };
    let h = if height == 0 {
        600
    } else {
        height
    };
    (w, h)
}

/// `v` limited to `0..=limit`, as `v.max(0).min(limit) as u32` gives it.
pub open spec fn clamp_pixel(v: i32, limit: i32) -> u32 {
    let lo = if v < 0 {
        0i32
    } else {
        v
    };
    (if lo < limit {
        lo
    } else {
        limit
    }) as u32
}

fn clamp_pixel_exec(v: i32, limit: i32) -> (r: u32)
    ensures
        r == clamp_pixel(v, limit),
{
    let lo = if v < 0 {
        0i32
    } else {
        v
    };
    let m = if lo < limit {
        lo
    } else {
        limit
    };
    m as u32
}

/// The part of the viewport a node capture keeps, as `(left, top, width,
/// height)`: the node's pixel box `[x, x + w) x [y, y + h)` clipped to the
/// `width` x `height` viewport; `None` when nothing of it is visible.
pub open spec fn visible_region(
    x: i32,
    y: i32,
    w: i32,
    h: i32,
    width: u32,
    height: u32,
) -> Option<(u32, u32, u32, u32)> {
    let left = clamp_pixel(x, width as i32);
    let top = clamp_pixel(y, height as i32);
    let right = clamp_pixel((x + w) as i32, width as i32);
    let bottom = clamp_pixel((y + h) as i32, height as i32);
    let cw = if right > left {
        (right - left) as u32
    } else {
        0u32
    };
    let ch = if bottom > top {
        (bottom - top) as u32
    } else {
        0u32
    };
    if cw == 0 || ch == 0 {
        None
    } else {
        Some((left, top, cw, ch))
    }
}

/// Clips a node's box, in physical pixels, to the viewport.
pub fn crop_region(x: i32, y: i32, w: i32, h: i32, width: u32, height: u32) -> (r: Option<
    (u32, u32, u32, u32),
>)
    requires
        i32::MIN <= x + w <= i32::MAX,
        i32::MIN <= y + h <= i32::MAX,
    ensures
        r == visible_region(x, y, w, h, width, height),
{
    let wl = width as i32;
    let hl = height as i32;
    let left = clamp_pixel_exec(x, wl);
    let top = clamp_pixel_exec(y, hl);
    let right = clamp_pixel_exec(x + w, wl);
    let bottom = clamp_pixel_exec(y + h, hl);
    let cw = right.saturating_sub(left);
    let ch = bottom.saturating_sub(top);
    if cw == 0 || ch == 0 {
        None
    } else {
        Some((left, top, cw, ch))
    }
}

/// Where byte `b` of row `y` of a crop comes from in the full buffer.
pub open spec fn crop_source(width: u32, left: u32, top: u32, y: int, b: int) -> int {
    ((top + y) * width + left) * 4 + b
}

/// Where byte `b` of row `y` of a crop lands in the cropped buffer.
pub open spec fn crop_target(crop_w: u32, y: int, b: int) -> int {
    y * (crop_w * 4) + b
}

proof fn lemma_row_bounds(width: u32, left: u32, top: u32, crop_w: u32, crop_h: u32, y: int)
    requires
        0 <= y < crop_h,
        left + crop_w <= width,
    ensures
        ((top + y) * width + left) * 4 + crop_w * 4 <= (top + crop_h) * width * 4,
{
    assert((top + y) * width + width <= (top + crop_h) * width) by (nonlinear_arith)
        requires
            0 <= y < crop_h,
    ;
    assert(((top + y) * width + left) * 4 + crop_w * 4 == ((top + y) * width + left + crop_w) * 4)
        by (nonlinear_arith);
    assert((top + crop_h) * width * 4 == ((top + crop_h) * width) * 4) by (nonlinear_arith);
}

proof fn lemma_rows_before(crop_w: u32, y: int, yy: int, b: int)
    requires
        0 <= yy < y,
        0 <= b < crop_w * 4,
    ensures
        crop_target(crop_w, yy, b) < y * (crop_w * 4),
        crop_target(crop_w, yy, b) >= 0,
{
    assert(yy * (crop_w * 4) + b < y * (crop_w * 4)) by (nonlinear_arith)
        requires
            0 <= yy < y,
            0 <= b < crop_w * 4,
    ;
    assert(yy * (crop_w * 4) >= 0) by (nonlinear_arith)
        requires
            0 <= yy,
    ;
}

/// Cuts the `crop_w` x `crop_h` region at (`left`, `top`) out of an RGBA
/// buffer `width` pixels wide, row by row.
pub fn crop_rgba(buffer: &[u8], width: u32, left: u32, top: u32, crop_w: u32, crop_h: u32) -> (r:
    Vec<u8>)
    requires
        left + crop_w <= width,
        top + crop_h <= u32::MAX,
        (top + crop_h) * width * 4 <= u32::MAX,
        (top + crop_h) * width * 4 <= buffer@.len(),
    ensures
        r@.len() == crop_h * (crop_w * 4),
        forall|y: int, b: int|
            0 <= y < crop_h && 0 <= b < crop_w * 4 ==> r@[#[trigger] crop_target(crop_w, y, b)]
                == buffer@[crop_source(width, left, top, y, b)],
{
    let mut out: Vec<u8> = Vec::new();
    let mut y: u32 = 0;
    while y < crop_h
        invariant
            y <= crop_h,
            left + crop_w <= width,
            top + crop_h <= u32::MAX,
            (top + crop_h) * width * 4 <= u32::MAX,
            (top + crop_h) * width * 4 <= buffer@.len(),
            out@.len() == y * (crop_w * 4),
            forall|yy: int, b: int|
                0 <= yy < y && 0 <= b < crop_w * 4 ==> out@[#[trigger] crop_target(crop_w, yy, b)]
                    == buffer@[crop_source(width, left, top, yy, b)],
        decreases crop_h - y,
    {
        proof {
            lemma_row_bounds(width, left, top, crop_w, crop_h, y as int);
            assert((top + y) * width >= 0) by (nonlinear_arith)
                requires
                    y >= 0,
            ;
        }
        let row_len: u32 = crop_w * 4;
        let row_start: u32 = ((top + y) * width + left) * 4;
        let mut b: u32 = 0;
        while b < row_len
            invariant
                y < crop_h,
                b <= row_len,
                row_len == crop_w * 4,
                row_start == ((top + y) * width + left) * 4,
                row_start + row_len <= (top + crop_h) * width * 4,
                (top + crop_h) * width * 4 <= u32::MAX,
                (top + crop_h) * width * 4 <= buffer@.len(),
                out@.len() == y * row_len + b,
                forall|yy: int, bb: int|
                    0 <= yy < y && 0 <= bb < row_len ==> out@[#[trigger] crop_target(crop_w, yy, bb)]
                        == buffer@[crop_source(width, left, top, yy, bb)],
                forall|bb: int|
                    0 <= bb < b ==> out@[crop_target(crop_w, y as int, bb)] == buffer@[crop_source(
                        width,
                        left,
                        top,
                        y as int,
                        bb,
                    )],
            decreases row_len - b,
        {
            let idx: usize = (row_start + b) as usize;
            let ghost before = out@;
            out.push(buffer[idx]);
            proof {
                assert forall|yy: int, bb: int|
                    0 <= yy < y && 0 <= bb < row_len implies out@[#[trigger] crop_target(
                        crop_w,
                        yy,
                        bb,
                    )] == buffer@[crop_source(width, left, top, yy, bb)] by {
                    lemma_rows_before(crop_w, y as int, yy, bb);
                    assert(out@[crop_target(crop_w, yy, bb)] == before[crop_target(crop_w, yy, bb)]);
                }
                assert forall|bb: int| 0 <= bb < b + 1 implies out@[crop_target(
                    crop_w,
                    y as int,
                    bb,
                )] == buffer@[crop_source(width, left, top, y as int, bb)] by {
                    if bb < b {
                        assert(out@[crop_target(crop_w, y as int, bb)] == before[crop_target(
                            crop_w,
                            y as int,
                            bb,
                        )]);
                    }
                }
            }
            b = b + 1;
        }
        proof {
            assert(out@.len() == (y + 1) * row_len) by (nonlinear_arith)
                requires
                    out@.len() == y * row_len + row_len,
            ;
            assert(row_len == crop_w * 4);
        }
        y = y + 1;
    }
    out
}

/// How the PNG encoder refused an image: while writing the header
/// (`at_header`) or while encoding the pixel data, in the encoder's own words.
#[derive(Debug, Clone, PartialEq, Eq)]
pub struct PngFailure {
    pub at_header: bool,
    pub message: String,
}

/// The eight bytes every PNG file starts with.
pub open spec fn png_signature() -> Seq<u8> {
    seq![137u8, 80u8, 78u8, 71u8, 13u8, 10u8, 26u8, 10u8]
}

/// The length and type that open a PNG's header chunk: 13 bytes, `IHDR`.
pub open spec fn ihdr_opening() -> Seq<u8> {
    seq![0u8, 0u8, 0u8, 13u8, 73u8, 72u8, 68u8, 82u8]
}

/// What the `png` crate makes of a `width` x `height` image of 8-bit RGBA
/// pixels: the file's bytes, or whether it failed at the header and its message.
pub uninterp spec fn png_rgba8(width: u32, height: u32, rgba: Seq<u8>) -> Result<
    Seq<u8>,
    (bool, Seq<char>),
>;

/// An encoder's outcome as plain values.
pub open spec fn encoded_view(r: Result<Vec<u8>, PngFailure>) -> Result<Seq<u8>, (bool, Seq<char>)> {
    match r {
        Ok(bytes) => Ok(bytes@),
        Err(f) => Err((f.at_header, f.message@)),
    }
}

/// Encodes RGBA pixels as a PNG with `png::Encoder` (colour type `Rgba`, bit
/// depth `Eight`), `Encoder::write_header` and `Writer::write_image_data`; the
/// writer appends the closing chunk when it is dropped.
///
/// Trusted: the result is `png_rgba8` of the arguments. From the crate's
/// source: the header is refused exactly for a zero dimension (writing into a
/// `Vec` cannot fail, and RGBA at depth eight is a valid combination); the
/// pixel data is refused exactly when its length is not `width * height * 4`
/// (compression and chunk writes go into memory and cannot fail); and a
/// finished file starts with the PNG signature and the 25-byte header chunk,
/// and ends with the 12-byte closing chunk (at least 45 bytes in all).
#[verifier::external_body]
fn encode_rgba8_png(width: u32, height: u32, rgba: &[u8]) -> (r: Result<Vec<u8>, PngFailure>)
    requires
        width * height * 4 <= usize::MAX,
    ensures
        png_rgba8(width, height, rgba@) == encoded_view(r),
        (r matches Err(f) && f.at_header) <==> (width == 0 || height == 0),
        (width > 0 && height > 0 && rgba@.len() != width * height * 4) ==> r is Err,
        (width > 0 && height > 0 && rgba@.len() == width * height * 4) ==> r is Ok,
        r matches Ok(bytes) ==> rgba@.len() == width * height * 4 && bytes@.len() >= 45
            && bytes@.subrange(0, 8) == png_signature() && bytes@.subrange(8, 16)
            == ihdr_opening(),
{
    let mut bytes = Vec::new();
    let mut encoder = png::Encoder::new(&mut bytes, width, height);
    encoder.set_color(png::ColorType::Rgba);
    encoder.set_depth(png::BitDepth::Eight);
    let mut writer = match encoder.write_header() {
        Ok(w) => w,
        Err(e) => return Err(PngFailure { at_header: true, message: format!("{e}") }),
    };
    if let Err(e) = writer.write_image_data(rgba) {
        return Err(PngFailure { at_header: false, message: format!("{e}") });
    }
    drop(writer);
    Ok(bytes)
}

/// The message an encoding failure is reported with.
pub open spec fn png_failure_text(at_header: bool, message: Seq<char>) -> Seq<char> {
    if at_header {
        "Failed to initialize PNG header: "@ + message
    } else {
        "Failed to encode PNG image data: "@ + message
    }
}

/// How an encoding outcome is reported: the bytes, or the failure's message.
pub open spec fn png_report(encoded: Result<Seq<u8>, (bool, Seq<char>)>) -> Result<
    Seq<u8>,
    Seq<char>,
> {
    match encoded {
        Ok(bytes) => Ok(bytes),
        Err((at_header, message)) => Err(png_failure_text(at_header, message)),
    }
}

/// Reports what the encoder gave back: its bytes, or its failure prefixed
/// by the stage at which it failed.
pub fn png_outcome(encoded: Result<Vec<u8>, PngFailure>) -> (r: Result<Vec<u8>, String>)
    ensures
        match encoded {
            Ok(bytes) => r matches Ok(out) && out@ == bytes@,
            Err(f) => r matches Err(m) && m@ == png_failure_text(f.at_header, f.message@),
        },
{
    match encoded {
        Ok(bytes) => Ok(bytes),
        Err(f) => {
            let mut m = if f.at_header {
                owned("Failed to initialize PNG header: ")
            } else {
                owned("Failed to encode PNG image data: ")
            };
            append_str(&mut m, f.message.as_str());
            Err(m)
        },
    }
}

/// Encodes a `width` x `height` RGBA image as PNG bytes.
pub fn encode_png(width: u32, height: u32, rgba: &[u8]) -> (r: Result<Vec<u8>, String>)
    requires
        width * height * 4 <= usize::MAX,
    ensures
        match png_report(png_rgba8(width, height, rgba@)) {
            Ok(bytes) => r matches Ok(out) && out@ == bytes,
            Err(m) => r matches Err(e) && e@ == m,
        },
        (width == 0 || height == 0) ==> (r matches Err(e) && exists|m: Seq<char>|
            e@ == #[trigger] png_failure_text(true, m)),
        (width > 0 && height > 0 && rgba@.len() != width * height * 4) ==> (r matches Err(e)
            && exists|m: Seq<char>| e@ == #[trigger] png_failure_text(false, m)),
        r matches Ok(out) ==> rgba@.len() == width * height * 4 && out@.len() >= 45
            && out@.subrange(0, 8) == png_signature() && out@.subrange(8, 16) == ihdr_opening(),
        (width > 0 && height > 0 && rgba@.len() == width * height * 4) ==> r is Ok,
{
    let encoded = encode_rgba8_png(width, height, rgba);
    png_outcome(encoded)
}

/// The pixels a capture keeps of a `width`-wide RGBA frame: all of it, or
/// the rows and columns of `region` (`left`, `top`, `width`, `height`).
pub open spec fn kept_pixels(frame: Seq<u8>, width: u32, region: Option<(u32, u32, u32, u32)>) -> Seq<
    u8,
> {
    match region {
        None => frame,
        Some((left, top, w, h)) => Seq::new(
            (h * (w * 4)) as nat,
            |i: int| frame[crop_source(width, left, top, i / (w * 4), i % (w * 4))],
        ),
    }
}

/// The size of the image a capture keeps.
pub open spec fn kept_size(width: u32, height: u32, region: Option<(u32, u32, u32, u32)>) -> (
    u32,
    u32,
) {
    match region {
        None => (width, height),
        Some((_, _, w, h)) => (w, h),
    }
}

proof fn lemma_crop_index(w: u32, h: u32, i: int)
    requires
        w > 0,
        0 <= i < h * (w * 4),
    ensures
        0 <= i / (w * 4) < h,
        0 <= i % (w * 4) < w * 4,
        crop_target(w, i / (w * 4), i % (w * 4)) == i,
{
    let d: int = w * 4;
    vstd::arithmetic::div_mod::lemma_fundamental_div_mod(i, d);
    vstd::arithmetic::div_mod::lemma_mod_pos_bound(i, d);
    vstd::arithmetic::div_mod::lemma_div_pos_is_pos(i, d);
    let y = i / d;
    let b = i % d;
    assert(y < h) by (nonlinear_arith)
        requires
            i == d * y + b,
            0 <= b,
            i < h * d,
            d > 0,
    ;
    assert(crop_target(w, y, b) == y * d + b);
    assert(y * d == d * y) by (nonlinear_arith);
}

proof fn lemma_crop_fits(width: u32, height: u32, top: u32, w: u32, h: u32, left: u32)
    requires
        left + w <= width,
        top + h <= height,
    ensures
        (top + h) * width * 4 <= width * height * 4,
        w * h * 4 <= width * height * 4,
{
    assert((top + h) * width <= height * width) by (nonlinear_arith)
        requires
            top + h <= height,
    ;
    assert(w * h <= width * height) by (nonlinear_arith)
        requires
            w <= width,
            h <= height,
    ;
    assert(height * width == width * height) by (nonlinear_arith);
}

/// The last steps of a capture: keeps `region` of the rendered `width` x
/// `height` RGBA frame (the whole frame when `None`) and encodes it as PNG,
/// giving the image's size and bytes.
pub fn encode_capture(frame: Vec<u8>, width: u32, height: u32, region: Option<(u32, u32, u32, u32)>) -> (r:
    Result<(u32, u32, Vec<u8>), String>)
    requires
        frame@.len() == width * height * 4,
        region matches Some((l, t, w, h)) ==> l + w <= width && t + h <= height && (t + h) * width
            * 4 <= u32::MAX,
    ensures
        match png_report(
            png_rgba8(
                kept_size(width, height, region).0,
                kept_size(width, height, region).1,
                kept_pixels(frame@, width, region),
            ),
        ) {
            Ok(bytes) => r matches Ok((w, h, out)) && (w, h) == kept_size(width, height, region)
                && out@ == bytes,
            Err(m) => r matches Err(e) && e@ == m,
        },
        (kept_size(width, height, region).0 > 0 && kept_size(width, height, region).1 > 0) ==> (r
            matches Ok((w, h, out)) && out@.len() >= 45 && out@.subrange(0, 8) == png_signature()),
{
    proof {
        assert(frame@.len() == frame.len());
    }
    match region {
        None => {
            let encoded = encode_png(width, height, frame.as_slice());
            match encoded {
                Ok(bytes) => Ok((width, height, bytes)),
                Err(e) => Err(e),
            }
        },
        Some((left, top, w, h)) => {
            proof {
                lemma_crop_fits(width, height, top, w, h, left);
            }
            let kept = crop_rgba(frame.as_slice(), width, left, top, w, h);
            proof {
                let want = kept_pixels(frame@, width, region);
                assert(kept@.len() == want.len()) by (nonlinear_arith)
                    requires
                        kept@.len() == h * (w * 4),
                        want.len() == (h * (w * 4)) as nat,
                ;
                assert forall|i: int| 0 <= i < kept@.len() implies kept@[i] == want[i] by {
                    if w > 0 {
                        lemma_crop_index(w, h, i);
                        let y = i / (w * 4);
                        let b = i % (w * 4);
                        assert(kept@[crop_target(w, y, b)] == frame@[crop_source(
                            width,
                            left,
                            top,
                            y,
                            b,
                        )]);
                    } else {
                        assert(h * (w * 4) == 0) by (nonlinear_arith)
                            requires
                                w == 0,
                        ;
                    }
                }
                assert(kept@ =~= want);
                assert(kept@.len() == w * h * 4) by (nonlinear_arith)
                    requires
                        kept@.len() == h * (w * 4),
                ;
            }
            let encoded = encode_png(w, h, kept.as_slice());
            match encoded {
                Ok(bytes) => Ok((w, h, bytes)),
                Err(e) => Err(e),
            }
        },
    }
}

/// Why a rendered capture could not be stored.
#[derive(Debug, Clone, Copy, PartialEq, Eq, Structural)]
pub enum StoreStep {
    /// Creating the output file's parent directory.
    CreateDirectory,
    /// Writing the PNG file.
    WriteFile,
}

/// What the host reported after it tried to render and store a capture.
#[derive(Debug, Clone, PartialEq, Eq)]
pub enum CaptureAttempt {
    /// Rendering or encoding failed, with this message.
    RenderFailed(String),
    /// The PNG was encoded but storing it failed at `step`, with the system's message.
    StoreFailed { step: StoreStep, error: String },
    /// A `width` x `height` PNG of `bytes` bytes was written.
    Stored { width: u32, height: u32, bytes: usize },
}

/// `r` reports a capture to `output_path` refused for `reason`.
pub open spec fn refuses_capture(r: CaptureResponse, output_path: String, reason: String) -> bool {
    &&& r == (CaptureResponse {
        success: false,
        file_path: output_path,
        width: 0,
        height: 0,
        format: r.format,
        node_id: None,
        bytes: 0,
        message: Some(reason),
    })
    &&& r.format@ == "png"@
}

/// The report of a capture whose target could not be resolved.
pub fn capture_refused(output_path: String, reason: String) -> (r: CaptureResponse)
    ensures
        refuses_capture(r, output_path, reason),
{
    CaptureResponse {
        success: false,
        file_path: output_path,
        width: 0,
        height: 0,
        format: owned("png"),
        node_id: None,
        bytes: 0,
        message: Some(reason),
    }
}

/// The message of a stored capture.
pub open spec fn stored_text(
    node_id: Option<u64>,
    width: u32,
    height: u32,
    path: Seq<char>,
    bytes: usize,
) -> Seq<char> {
    let size = decimal(width as nat) + "x"@ + decimal(height as nat);
    let tail = " PNG visual screenshot to "@ + path + " ("@ + decimal(bytes as nat) + " bytes)"@;
    match node_id {
        Some(n) => "Captured node #"@ + decimal(n as nat) + " cropped to "@ + size + tail,
        None => "Captured "@ + size + tail,
    }
}

/// The message of a capture that could not be stored.
pub open spec fn store_failure_text(step: StoreStep, error: Seq<char>) -> Seq<char> {
    match step {
        StoreStep::CreateDirectory => "Failed to create parent directory: "@ + error,
        StoreStep::WriteFile => "Failed to write capture to file: "@ + error,
    }
}

/// `r` reports a capture of `node_id` (the whole viewport when `None`) to
/// `output_path`, given what the host reported of its attempt.
pub open spec fn reports_capture(
    r: CaptureResponse,
    output_path: String,
    node_id: Option<u64>,
    attempt: CaptureAttempt,
) -> bool {
    &&& r.file_path == output_path
    &&& r.format@ == "png"@
    &&& r.node_id == node_id
    &&& match attempt {
        CaptureAttempt::Stored { width, height, bytes } => {
            &&& r.success
            &&& r.width == width
            &&& r.height == height
            &&& r.bytes == bytes
            &&& r.message matches Some(m) && m@ == stored_text(
                node_id,
                width,
                height,
                output_path@,
                bytes,
            )
        },
        CaptureAttempt::StoreFailed { step, error } => {
            &&& !r.success
            &&& r.width == 0 && r.height == 0 && r.bytes == 0
            &&& r.message matches Some(m) && m@ == store_failure_text(step, error@)
        },
        CaptureAttempt::RenderFailed(e) => {
            &&& !r.success
            &&& r.width == 0 && r.height == 0 && r.bytes == 0
            &&& r.message == Some(e)
        },
    }
}

/// The report of a capture of `node_id` (the whole viewport when `None`)
/// written to `output_path`, given what the host reported.
pub fn capture_report(output_path: String, node_id: Option<u64>, attempt: CaptureAttempt) -> (r:
    CaptureResponse)
    ensures
        reports_capture(r, output_path, node_id, attempt),
{
    match attempt {
        CaptureAttempt::Stored { width, height, bytes } => {
            let mut m = match node_id {
                Some(n) => {
                    let mut s = owned("Captured node #");
                    append_decimal(&mut s, n);
                    append_str(&mut s, " cropped to ");
                    s
                },
                None => owned("Captured "),
            };
            append_decimal(&mut m, width as u64);
            append_str(&mut m, "x");
            append_decimal(&mut m, height as u64);
            append_str(&mut m, " PNG visual screenshot to ");
            append_str(&mut m, output_path.as_str());
            append_str(&mut m, " (");
            append_decimal(&mut m, bytes as u64);
            append_str(&mut m, " bytes)");
            assert(m@ =~= stored_text(node_id, width, height, output_path@, bytes));
            CaptureResponse {
                success: true,
                file_path: output_path,
                width,
                height,
                format: owned("png"),
                node_id,
                bytes,
                message: Some(m),
            }
        },
        CaptureAttempt::StoreFailed { step, error } => {
            let mut m = match step {
                StoreStep::CreateDirectory => owned("Failed to create parent directory: "),
                StoreStep::WriteFile => owned("Failed to write capture to file: "),
            };
            append_str(&mut m, error.as_str());
            CaptureResponse {
                success: false,
                file_path: output_path,
                width: 0,
                height: 0,
                format: owned("png"),
                node_id,
                bytes: 0,
                message: Some(m),
            }
        },
        CaptureAttempt::RenderFailed(e) => CaptureResponse {
            success: false,
            file_path: output_path,
            width: 0,
            height: 0,
            format: owned("png"),
            node_id,
            bytes: 0,
            message: Some(e),
        },
    }
}

} // verus!
