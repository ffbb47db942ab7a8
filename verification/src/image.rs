use vstd::prelude::*;

use crate::orientation::{exif_orientation_value, orientation_for_value, read_orientation, Orientation};
use crate::path::{extension_of, make_output_path, output_path_of};
use crate::raster::{black, rotate180, rotate270, rotate90, rotated180, rotated270, rotated90, Raster, Rgb};

verus! {

/// `out` is `img` turned as `orientation` asks.
pub open spec fn upright(img: &Raster, orientation: Orientation, out: &Raster) -> bool {
    &&& out.wf()
    &&& match orientation {
        Orientation::Normal => *out == *img,
        Orientation::Rotate180 => rotated180(img, out),
        Orientation::Rotate90 => rotated90(img, out),
        Orientation::Rotate270 => rotated270(img, out),
    }
}

/// Width and height of `img` once turned as `orientation` asks.
pub open spec fn upright_size(img: &Raster, orientation: Orientation) -> (u32, u32) {
    match orientation {
        Orientation::Rotate90 | Orientation::Rotate270 => (img.height, img.width),
        _ => (img.width, img.height),
    }
}

/// Turns a decoded photo upright as its EXIF orientation asks.
pub fn correct_orientation(img: Raster, orientation: Orientation) -> (out: Raster)
    requires
        img.wf(),
    ensures
        upright(&img, orientation, &out),
        (out.width, out.height) == upright_size(&img, orientation),
{
    match orientation {
        Orientation::Rotate180 => rotate180(&img),
        Orientation::Rotate90 => rotate90(&img),
        Orientation::Rotate270 => rotate270(&img),
        Orientation::Normal => img,
    }
}

/// Width of the part of a frame that is meant to be seen: 640 of 480
/// rows is 4:3.
pub const VISIBLE_WIDTH: u32 = 640;

/// Height of every framed image.
pub const TARGET_HEIGHT: u32 = 480;

/// How wide content is fitted into 4:3.
#[derive(Clone, Copy, PartialEq, Eq, Debug, Structural)]
pub enum ScaleMode {
    /// Keep the whole picture and cover what lies left and right of the
    /// 4:3 window with black bars.
    Bars,
    /// Cut away what lies left and right of the 4:3 window.
    Crop,
}

/// Width of the canvas that the scaled picture is laid on.
pub open spec fn canvas_width(sw: int) -> int {
    if sw < 640 {
        640
    } else {
        sw
    }
}

/// Width of the black bar on the left in `Bars` mode; the bar on the right
/// takes the rest, so that exactly 640 columns stay visible.
pub open spec fn bar_width(sw: int) -> int {
    (canvas_width(sw) - 640) / 2
}

/// Column of the canvas where the scaled picture starts.
pub open spec fn overlay_offset(sw: int) -> int {
    (canvas_width(sw) - sw) / 2
}

/// Width of the framed image.
pub open spec fn framed_width(sw: int, mode: ScaleMode) -> int {
    match mode {
        ScaleMode::Bars => canvas_width(sw),
        ScaleMode::Crop => 640,
    }
}

/// Pixel `(x, y)` of the canvas in `Bars` mode: black outside the 640
/// columns that start after the left bar,
/// the scaled picture centred between them, black where it does not reach.
pub open spec fn bars_pixel(scaled: &Raster, x: int, y: int) -> Rgb {
    let sw = scaled.width as int;
    let cw = canvas_width(sw);
    let bar = bar_width(sw);
    let off = overlay_offset(sw);
    if x < bar || x >= bar + 640 {
        black()
    } else if off <= x < off + sw {
        scaled.px(x - off, y)
    } else {
        black()
    }
}

/// Pixel `(x, y)` of the framed image; `Crop` keeps the 640 columns of the
/// canvas that start at the first column after the left bar.
pub open spec fn framed_pixel(scaled: &Raster, mode: ScaleMode, x: int, y: int) -> Rgb {
    match mode {
        ScaleMode::Bars => bars_pixel(scaled, x, y),
        ScaleMode::Crop => bars_pixel(scaled, x + bar_width(scaled.width as int), y),
    }
}

/// `out` is `scaled` laid on a 4:3 frame as `mode` asks.
pub open spec fn framed(scaled: &Raster, mode: ScaleMode, out: &Raster) -> bool {
    &&& out.wf()
    &&& out.width == framed_width(scaled.width as int, mode)
    &&& out.height == scaled.height
    &&& forall|x: int, y: int|
        0 <= x < out.width && 0 <= y < out.height ==> #[trigger] out.px(x, y) == framed_pixel(
            scaled,
            mode,
            x,
            y,
        )
}

/// Lays an image that already has its final height on a canvas at least
/// 640 columns wide, centred, and frames the middle 640 columns: with
/// black bars on both sides (`Bars`) or by cutting the sides away (`Crop`).
pub fn frame_4_3(scaled: &Raster, mode: ScaleMode) -> (out: Raster)
    requires
        scaled.wf(),
    ensures
        framed(scaled, mode, &out),
{
    let sw = scaled.width;
    let cw: u32 = if sw < VISIBLE_WIDTH {
        VISIBLE_WIDTH
    } else {
        sw
    };
    let bar = (cw - VISIBLE_WIDTH) / 2;
    let off = (cw - sw) / 2;
    let (out_w, start): (u32, u32) = match mode {
        ScaleMode::Bars => (cw, 0),
        ScaleMode::Crop => (VISIBLE_WIDTH, bar),
    };
    assert(out_w == framed_width(sw as int, mode));
    let h = scaled.height as usize;
    let mut rows: Vec<Vec<Rgb>> = Vec::new();
    for y in 0..h
        invariant
            scaled.wf(),
            h == scaled.height,
            sw == scaled.width,
            cw == canvas_width(sw as int),
            bar == bar_width(sw as int),
            off == overlay_offset(sw as int),
            out_w == framed_width(sw as int, mode),
            start == (match mode {
                ScaleMode::Bars => 0,
                ScaleMode::Crop => bar_width(sw as int),
            }),
            rows@.len() == y,
            forall|j: int| 0 <= j < y ==> (#[trigger] rows@[j])@.len() == out_w,
            forall|x: int, j: int|
                0 <= j < y && 0 <= x < out_w ==> #[trigger] rows@[j]@[x] == framed_pixel(
                    scaled,
                    mode,
                    x,
                    j,
                ),
    {
        let mut row: Vec<Rgb> = Vec::new();
        let mut x: u32 = 0;
        while x < out_w
            invariant
                scaled.wf(),
                h == scaled.height,
                sw == scaled.width,
                cw == canvas_width(sw as int),
                bar == bar_width(sw as int),
                off == overlay_offset(sw as int),
                out_w == framed_width(sw as int, mode),
                start == (match mode {
                    ScaleMode::Bars => 0,
                    ScaleMode::Crop => bar_width(sw as int),
                }),
                y < h,
                x <= out_w,
                row@.len() == x,
                forall|i: int|
                    0 <= i < x ==> #[trigger] row@[i] == framed_pixel(scaled, mode, i, y as int),
            decreases out_w - x,
        {
            let cx = x + start;
            let p = if cx < bar || cx >= bar + VISIBLE_WIDTH {
                Rgb { r: 0, g: 0, b: 0 }
            } else if off <= cx && cx < off + sw {
                scaled.rows[y][(cx - off) as usize]
            } else {
                Rgb { r: 0, g: 0, b: 0 }
            };
            row.push(p);
            x = x + 1;
        }
        rows.push(row);
    }
    Raster { width: out_w, height: scaled.height, rows }
}

/// Resizes with `image::imageops::resize` and `FilterType::Lanczos3` on an
/// `RgbImage` built from the pixels. The contract claims what the source of
/// `resize` shows of every outcome: the size of the result, that a resize
/// to the same size copies the pixels, and that an empty source gives a
/// black image. The resampled pixels are left unsaid: the Lanczos3 kernel
/// calls `f32::sin`, whose precision std leaves open, so they are not a
/// function of the arguments alone.
#[verifier::external_body]
fn resize_lanczos3(img: &Raster, new_width: u32, new_height: u32) -> (out: Raster)
    requires
        img.wf(),
        img.width as int * img.height * 3 <= isize::MAX,
        img.width as int * new_height * 16 <= isize::MAX,
        new_width as int * new_height * 3 <= isize::MAX,
    ensures
        out.wf(),
        out.width == new_width,
        out.height == new_height,
        new_width == img.width && new_height == img.height ==> out.grid() == img.grid(),
        img.width == 0 || img.height == 0 ==> forall|x: int, y: int|
            0 <= x < new_width && 0 <= y < new_height ==> #[trigger] out.px(x, y) == black(),
{
    let src = ::image::RgbImage::from_fn(img.width, img.height, |x, y| {
        let p = img.rows[y as usize][x as usize];
        ::image::Rgb([p.r, p.g, p.b])
    });
    let filter = ::image::imageops::FilterType::Lanczos3;
    let dst = ::image::imageops::resize(&src, new_width, new_height, filter);
    let rows = (0..new_height).map(|y| (0..new_width).map(|x| {
        let p = dst.get_pixel(x, y);
        Rgb { r: p[0], g: p[1], b: p[2] }
    }).collect()).collect();
    Raster { width: new_width, height: new_height, rows }
}

/// The memory that scaling a `width` x `height` image to `scaled_width`
/// x 480 takes fits the machine.
pub open spec fn scaling_fits(width: u32, height: u32, scaled_width: u32) -> bool {
    &&& width as int * height * 3 <= isize::MAX
    &&& width as int * 480 * 16 <= isize::MAX
    &&& scaled_width as int * 480 * 3 <= isize::MAX
}

/// `scaled` is what resampling `img` to `scaled_width` x 480 may give: that
/// size, the same pixels where the size does not change, and black where
/// `img` is empty.
pub open spec fn resized_to(img: &Raster, scaled_width: u32, scaled: &Raster) -> bool {
    &&& scaled.wf()
    &&& scaled.width == scaled_width
    &&& scaled.height == 480
    &&& scaled_width == img.width && img.height == 480 ==> scaled.grid() == img.grid()
    &&& img.width == 0 || img.height == 0 ==> forall|x: int, y: int|
        0 <= x < scaled_width && 0 <= y < 480 ==> #[trigger] scaled.px(x, y) == black()
}

/// `out` is `img` resampled to `scaled_width` x 480 and framed at 4:3 as
/// `mode` asks.
pub open spec fn made_4_3(img: &Raster, scaled_width: u32, mode: ScaleMode, out: &Raster) -> bool {
    exists|scaled: Raster| #[trigger]
        resized_to(img, scaled_width, &scaled) && framed(&scaled, mode, out)
}

/// Scales an image to 480 rows with Lanczos3 resampling and frames it at
/// 4:3 as `mode` asks. `scaled_width` is the width that keeps the aspect
/// ratio at 480 rows; the caller rounds it, in floating point.
pub fn scale_to_4_3(img: &Raster, scaled_width: u32, mode: ScaleMode) -> (out: Raster)
    requires
        img.wf(),
        scaling_fits(img.width, img.height, scaled_width),
    ensures
        made_4_3(img, scaled_width, mode, &out),
        img.width == 640 && img.height == 480 && scaled_width == 640 ==> out.width == 640
            && out.grid() == img.grid(),
{
    let scaled = resize_lanczos3(img, scaled_width, TARGET_HEIGHT);
    let out = frame_4_3(&scaled, mode);
    assert(resized_to(img, scaled_width, &scaled) && framed(&scaled, mode, &out));
    assert(made_4_3(img, scaled_width, mode, &out));
    proof {
        if img.width == 640 && img.height == 480 && scaled_width == 640 {
            assert(out.grid() =~= img.grid()) by {
                assert forall|y: int| 0 <= y < 480 implies #[trigger] out.grid()[y] =~= img.grid()[y] by {
                    assert forall|x: int| 0 <= x < 640 implies out.grid()[y][x] == img.grid()[y][x] by {
                        assert(out.px(x, y) == framed_pixel(&scaled, mode, x, y));
                        assert(scaled.grid()[y][x] == scaled.px(x, y));
                    }
                }
            }
        }
    }
    out
}

/// Every framed image is 480 rows high and shows a 4:3 window of exactly
/// 640 columns: in `Crop` mode the whole image is 640 columns wide; in
/// `Bars` mode it is `max(scaled_width, 640)` wide and every pixel left and
/// right of the 640 columns that start at `(width - 640) / 2` is black.
pub proof fn lemma_framed_is_4_3(img: &Raster, scaled_width: u32, mode: ScaleMode, out: &Raster)
    requires
        made_4_3(img, scaled_width, mode, out),
    ensures
        out.wf(),
        out.height == 480,
        mode == ScaleMode::Crop ==> out.width == 640,
        mode == ScaleMode::Bars ==> {
            let bar = (out.width - 640) / 2;
            &&& out.width == canvas_width(scaled_width as int)
            &&& out.width >= 640
            &&& forall|x: int, y: int|
                0 <= y < out.height && (0 <= x < bar || bar + 640 <= x < out.width)
                    ==> #[trigger] out.px(x, y) == black()
        },
{
    let scaled = choose|scaled: Raster| #[trigger]
        resized_to(img, scaled_width, &scaled) && framed(&scaled, mode, out);
    if mode == ScaleMode::Bars {
        let bar = (out.width - 640) / 2;
        assert forall|x: int, y: int|
            0 <= y < out.height && (0 <= x < bar || bar + 640 <= x < out.width)
                implies #[trigger] out.px(x, y) == black() by {
            assert(out.px(x, y) == framed_pixel(&scaled, mode, x, y));
        }
    }
}

/// Framing a framed image again in the same mode, at its own width, keeps
/// its size: that width already fills the canvas.
pub proof fn lemma_reframing_keeps_size(
    img: &Raster,
    scaled_width: u32,
    mode: ScaleMode,
    framed_once: &Raster,
    framed_twice: &Raster,
)
    requires
        made_4_3(img, scaled_width, mode, framed_once),
        made_4_3(framed_once, framed_once.width, mode, framed_twice),
    ensures
        framed_twice.width == framed_once.width,
        framed_twice.height == framed_once.height,
{
    lemma_framed_is_4_3(img, scaled_width, mode, framed_once);
    lemma_framed_is_4_3(framed_once, framed_once.width, mode, framed_twice);
}

/// `out` is `img` turned upright as `orientation` asks, scaled to 480 rows
/// to `scaled_width` columns and framed at 4:3 as `mode` asks.
pub open spec fn framed_from(
    img: &Raster,
    orientation: Orientation,
    scaled_width: u32,
    mode: ScaleMode,
    out: &Raster,
) -> bool {
    exists|up: Raster| #[trigger]
        upright(img, orientation, &up) && made_4_3(&up, scaled_width, mode, out)
}

/// The image part of turning a photo into a VHS frame: turns the decoded
/// image upright, scales it to `scaled_width` x 480 (the width that keeps
/// the aspect ratio of the upright image, which the caller rounds in
/// floating point), frames it at 4:3, and names the output file. The analog-video effect and the file I/O are left to the
/// caller.
pub fn process(
    input_path: &str,
    img: Raster,
    orientation: Orientation,
    scaled_width: u32,
    mode: ScaleMode,
    output_dir: Option<&str>,
    output_name: Option<&str>,
) -> (r: (Raster, String))
    requires
        img.wf(),
        extension_of(input_path@) is Some,
        scaling_fits(
            upright_size(&img, orientation).0,
            upright_size(&img, orientation).1,
            scaled_width,
        ),
    ensures
        framed_from(&img, orientation, scaled_width, mode, &r.0),
        r.1@ == output_path_of(
            input_path@,
            match output_dir {
                Some(d) => Some(d@),
                None => None,
            },
            match output_name {
                Some(n) => Some(n@),
                None => None,
            },
        ),
{
    let ghost given = img;
    let up = correct_orientation(img, orientation);
    let out = scale_to_4_3(&up, scaled_width, mode);
    assert(upright(&given, orientation, &up) && made_4_3(&up, scaled_width, mode, &out));
    assert(framed_from(&given, orientation, scaled_width, mode, &out));
    let path = make_output_path(input_path, output_dir, output_name);
    (out, path)
}

/// What the `image` crate decodes from the bytes of a file named `path`,
/// in the format that the path's extension names, converted to 8-bit RGB:
/// the width and the rows of pixels, or `None` where it cannot decode them.
pub uninterp spec fn decoded_rgb8(path: Seq<char>, data: Seq<u8>) -> Option<(u32, Seq<Seq<Rgb>>)>;

/// Decodes with `ImageFormat::from_path`, `load_from_memory_with_format`
/// and `DynamicImage::into_rgb8`. The contract claims that the result is
/// `decoded_rgb8` of the arguments, and, as `from_path` shows, that a path
/// without an extension names no format. The decoders themselves are
/// left unsaid.
#[verifier::external_body]
fn decode_rgb8(path: &str, data: &[u8]) -> (r: Option<Raster>)
    ensures
        r is Some <==> decoded_rgb8(path@, data@) is Some,
        r matches Some(img) ==> img.wf() && decoded_rgb8(path@, data@) == Some(
            (img.width, img.grid()),
        ),
        extension_of(path@) is None ==> r is None,
{
    let format = ::image::ImageFormat::from_path(path).ok()?;
    let img = ::image::load_from_memory_with_format(data, format).ok()?.into_rgb8();
    let (width, height) = img.dimensions();
    let rows = (0..height).map(|y| (0..width).map(|x| {
        let p = img.get_pixel(x, y);
        Rgb { r: p[0], g: p[1], b: p[2] }
    }).collect()).collect();
    Some(Raster { width, height, rows })
}

/// The bytes of the file that the `image` crate writes for an 8-bit RGB
/// image of `width` columns and the given rows, in the format that the
/// extension of `path` names, or `None` where it cannot encode it.
pub uninterp spec fn encoded_rgb8(path: Seq<char>, width: u32, grid: Seq<Seq<Rgb>>) -> Option<Seq<u8>>;

/// Encodes with `ImageFormat::from_path` and `write_buffer_with_format`,
/// the encoder that `ImageBuffer::save` runs, into memory. The contract
/// claims that the result is `encoded_rgb8` of the arguments, and, as
/// `from_path` shows, that a path without an extension names no format.
/// The encoders themselves are left unsaid.
#[verifier::external_body]
fn encode_rgb8(img: &Raster, path: &str) -> (r: Option<Vec<u8>>)
    requires
        img.wf(),
        img.width as int * img.height * 3 <= isize::MAX,
    ensures
        match r {
            Some(bytes) => encoded_rgb8(path@, img.width, img.grid()) == Some(bytes@),
            None => encoded_rgb8(path@, img.width, img.grid()) is None,
        },
        extension_of(path@) is None ==> r is None,
{
    let format = ::image::ImageFormat::from_path(path).ok()?;
    let buf = ::image::RgbImage::from_fn(img.width, img.height, |x, y| {
        let p = img.rows[y as usize][x as usize];
        ::image::Rgb([p.r, p.g, p.b])
    });
    let mut out = std::io::Cursor::new(Vec::new());
    let color = ::image::ExtendedColorType::Rgb8;
    ::image::write_buffer_with_format(&mut out, buf.as_raw(), img.width, img.height, color, format).ok()?;
    Some(out.into_inner())
}

/// Decodes the bytes of an image file, in the format its path names.
pub fn decode_image(path: &str, data: &[u8]) -> (r: Option<Raster>)
    ensures
        r is Some <==> decoded_rgb8(path@, data@) is Some,
        r matches Some(img) ==> img.wf() && decoded_rgb8(path@, data@) == Some(
            (img.width, img.grid()),
        ),
{
    decode_rgb8(path, data)
}

/// Encodes an image as the bytes of a file named `path`, in the format
/// its extension names; `None` where that format cannot be written.
pub fn encode_image(img: &Raster, path: &str) -> (r: Option<Vec<u8>>)
    requires
        img.wf(),
        img.width as int * img.height * 3 <= isize::MAX,
    ensures
        match r {
            Some(bytes) => encoded_rgb8(path@, img.width, img.grid()) == Some(bytes@),
            None => encoded_rgb8(path@, img.width, img.grid()) is None,
        },
{
    encode_rgb8(img, path)
}

/// The orientation recorded in the bytes of an image file.
pub open spec fn orientation_of_bytes(data: Seq<u8>) -> Orientation {
    orientation_for_value(exif_orientation_value(data))
}

/// Decodes the bytes of a photo in the format its file name says, and
/// reads from the same bytes how it must be turned to be seen upright.
pub fn decode_photo(input_path: &str, data: &[u8]) -> (r: Option<(Raster, Orientation)>)
    ensures
        r is Some <==> decoded_rgb8(input_path@, data@) is Some,
        r matches Some((img, orientation)) ==> {
            &&& img.wf()
            &&& decoded_rgb8(input_path@, data@) == Some((img.width, img.grid()))
            &&& orientation == orientation_of_bytes(data@)
        },
{
    match decode_rgb8(input_path, data) {
        Some(img) => Some((img, read_orientation(Some(data)))),
        None => None,
    }
}

} // verus!
