use vhsify::image::{
    correct_orientation, decode_image, decode_photo, encode_image, frame_4_3, process,
    scale_to_4_3, ScaleMode,
};
use vhsify::orientation::{orientation_from_value, read_orientation, Orientation};
use vhsify::raster::{rotate180, rotate270, rotate90, Raster, Rgb};

fn px(v: u8) -> Rgb {
    Rgb { r: v, g: v.wrapping_add(1), b: v.wrapping_add(2) }
}

const BLACK: Rgb = Rgb { r: 0, g: 0, b: 0 };

fn raster(rows: Vec<Vec<Rgb>>) -> Raster {
    let height = rows.len() as u32;
    let width = if rows.is_empty() { 0 } else { rows[0].len() as u32 };
    Raster { width, height, rows }
}

/// The width at 480 rows that the program computes, rounded in `f32`.
fn sw_of(img: &Raster) -> u32 {
    ((img.width as f32 * 480.0) / img.height as f32).round() as u32
}

fn gradient(width: u32, height: u32) -> Raster {
    let rows = (0..height)
        .map(|y| (0..width).map(|x| px(((x * 7 + y * 13) % 251) as u8)).collect())
        .collect();
    Raster { width, height, rows }
}

#[test]
fn rotate90_turns_clockwise() {
    let img = raster(vec![vec![px(1), px(2), px(3)], vec![px(4), px(5), px(6)]]);
    let out = rotate90(&img);
    assert_eq!((out.width, out.height), (2, 3));
    assert_eq!(out.rows, vec![vec![px(4), px(1)], vec![px(5), px(2)], vec![px(6), px(3)]]);
}

#[test]
fn rotate180_turns_half() {
    let img = raster(vec![vec![px(1), px(2)], vec![px(3), px(4)]]);
    let out = rotate180(&img);
    assert_eq!(out.rows, vec![vec![px(4), px(3)], vec![px(2), px(1)]]);
}

#[test]
fn rotate270_turns_counter_clockwise() {
    let img = raster(vec![vec![px(1), px(2), px(3)], vec![px(4), px(5), px(6)]]);
    let out = rotate270(&img);
    assert_eq!((out.width, out.height), (2, 3));
    assert_eq!(out.rows, vec![vec![px(3), px(6)], vec![px(2), px(5)], vec![px(1), px(4)]]);
}

#[test]
fn rotate90_then_rotate270_is_identity() {
    let img = gradient(5, 3);
    let back = rotate270(&rotate90(&img));
    assert_eq!((back.width, back.height), (5, 3));
    assert_eq!(back.rows, img.rows);
}

#[test]
fn rotate90_twice_is_rotate180() {
    let img = gradient(4, 3);
    assert_eq!(rotate90(&rotate90(&img)).rows, rotate180(&img).rows);
    assert_eq!(rotate180(&rotate180(&img)).rows, img.rows);
}

#[test]
fn correct_orientation_follows_tag() {
    let img = gradient(3, 2);
    assert_eq!(correct_orientation(gradient(3, 2), Orientation::Normal).rows, img.rows);
    assert_eq!(correct_orientation(gradient(3, 2), Orientation::Rotate90).rows, rotate90(&img).rows);
    assert_eq!(correct_orientation(gradient(3, 2), Orientation::Rotate180).rows, rotate180(&img).rows);
    assert_eq!(correct_orientation(gradient(3, 2), Orientation::Rotate270).rows, rotate270(&img).rows);
}

#[test]
fn orientation_values() {
    assert_eq!(orientation_from_value(None), Orientation::Normal);
    assert_eq!(orientation_from_value(Some(1)), Orientation::Normal);
    assert_eq!(orientation_from_value(Some(3)), Orientation::Rotate180);
    assert_eq!(orientation_from_value(Some(6)), Orientation::Rotate90);
    assert_eq!(orientation_from_value(Some(8)), Orientation::Rotate270);
    assert_eq!(orientation_from_value(Some(2)), Orientation::Normal);
    assert_eq!(orientation_from_value(Some(5)), Orientation::Normal);
}

fn tiff_with_orientation(value: u16) -> Vec<u8> {
    let mut b = vec![0x49, 0x49, 0x2a, 0x00, 0x08, 0x00, 0x00, 0x00];
    b.extend_from_slice(&[0x01, 0x00]);
    b.extend_from_slice(&[0x12, 0x01, 0x03, 0x00, 0x01, 0x00, 0x00, 0x00]);
    b.extend_from_slice(&value.to_le_bytes());
    b.extend_from_slice(&[0x00, 0x00]);
    b.extend_from_slice(&[0x00, 0x00, 0x00, 0x00]);
    b
}

#[test]
fn read_orientation_from_exif() {
    assert_eq!(read_orientation(Some(&tiff_with_orientation(6))), Orientation::Rotate90);
    assert_eq!(read_orientation(Some(&tiff_with_orientation(3))), Orientation::Rotate180);
    assert_eq!(read_orientation(Some(&tiff_with_orientation(8))), Orientation::Rotate270);
    assert_eq!(read_orientation(Some(&tiff_with_orientation(1))), Orientation::Normal);
}

#[test]
fn read_orientation_without_exif() {
    assert_eq!(read_orientation(None), Orientation::Normal);
    assert_eq!(read_orientation(Some(b"not an image at all")), Orientation::Normal);
    assert_eq!(read_orientation(Some(&[])), Orientation::Normal);
}

#[test]
fn frame_narrow_image_is_centred_on_black() {
    let scaled = raster(vec![vec![px(10), px(20)]]);
    for mode in [ScaleMode::Bars, ScaleMode::Crop] {
        let out = frame_4_3(&scaled, mode);
        assert_eq!((out.width, out.height), (640, 1));
        for x in 0..640usize {
            let expected = match x {
                319 => px(10),
                320 => px(20),
                _ => BLACK,
            };
            assert_eq!(out.rows[0][x], expected);
        }
    }
}

#[test]
fn frame_wide_image_with_bars() {
    let row: Vec<Rgb> = (0..700u32).map(|x| px((x % 200) as u8 + 1)).collect();
    let scaled = raster(vec![row.clone()]);
    let out = frame_4_3(&scaled, ScaleMode::Bars);
    assert_eq!((out.width, out.height), (700, 1));
    for x in 0..700usize {
        let expected = if x < 30 || x >= 670 { BLACK } else { row[x] };
        assert_eq!(out.rows[0][x], expected);
    }
}

#[test]
fn frame_wide_image_cropped() {
    let row: Vec<Rgb> = (0..700u32).map(|x| px((x % 200) as u8 + 1)).collect();
    let scaled = raster(vec![row.clone()]);
    let out = frame_4_3(&scaled, ScaleMode::Crop);
    assert_eq!((out.width, out.height), (640, 1));
    for x in 0..640usize {
        assert_eq!(out.rows[0][x], row[x + 30]);
    }
}

#[test]
fn frame_odd_excess_leaves_exactly_640_visible() {
    let row: Vec<Rgb> = (0..643u32).map(|_| px(9)).collect();
    let out = frame_4_3(&raster(vec![row]), ScaleMode::Bars);
    assert_eq!(out.width, 643);
    assert_eq!(out.rows[0][0], BLACK);
    assert_eq!(out.rows[0][1], px(9));
    assert_eq!(out.rows[0][640], px(9));
    assert_eq!(out.rows[0][641], BLACK);
    assert_eq!(out.rows[0][642], BLACK);
    assert_eq!(out.rows[0].iter().filter(|p| **p != BLACK).count(), 640);
}

#[test]
fn scale_keeps_640x480_unchanged() {
    let img = gradient(640, 480);
    let out = scale_to_4_3(&img, sw_of(&img), ScaleMode::Bars);
    assert_eq!((out.width, out.height), (640, 480));
    assert_eq!(out.rows, img.rows);
}

#[test]
fn scale_4_by_3_to_640x480() {
    let img = gradient(4, 3);
    let out = scale_to_4_3(&img, sw_of(&img), ScaleMode::Bars);
    assert_eq!((out.width, out.height), (640, 480));
    assert_eq!(out.rows.len(), 480);
    assert!(out.rows.iter().all(|r| r.len() == 640));
}

#[test]
fn scale_16_by_9_bars_and_crop() {
    let img = gradient(16, 9);
    let bars = scale_to_4_3(&img, sw_of(&img), ScaleMode::Bars);
    assert_eq!((bars.width, bars.height), (853, 480));
    for row in &bars.rows {
        assert!(row[..106].iter().all(|p| *p == BLACK));
        assert!(row[746..].iter().all(|p| *p == BLACK));
        assert_eq!(row[106..746].len(), 640);
    }
    let crop = scale_to_4_3(&img, sw_of(&img), ScaleMode::Crop);
    assert_eq!((crop.width, crop.height), (640, 480));
    for (b, c) in bars.rows.iter().zip(crop.rows.iter()) {
        assert_eq!(&b[106..746], &c[..]);
    }
}

#[test]
fn scale_tall_image_gets_side_padding() {
    let img = Raster { width: 1, height: 2, rows: vec![vec![px(200)], vec![px(200)]] };
    let out = scale_to_4_3(&img, sw_of(&img), ScaleMode::Crop);
    assert_eq!((out.width, out.height), (640, 480));
    assert!(out.rows[0][..200].iter().all(|p| *p == BLACK));
    assert!(out.rows[0][440..].iter().all(|p| *p == BLACK));
    assert_ne!(out.rows[240][320], BLACK);
}

#[test]
fn scaled_width_rounds_half_up() {
    let img = Raster { width: 1, height: 960, rows: vec![vec![px(1)]; 960] };
    let out = scale_to_4_3(&img, sw_of(&img), ScaleMode::Bars);
    assert_eq!(out.width, 640);
    assert_eq!(out.rows[0][318], BLACK);
    assert_ne!(out.rows[0][319], BLACK);
    assert_eq!(out.rows[0][320], BLACK);
}

#[test]
fn process_rotates_frames_and_names_output() {
    let img = gradient(3, 4);
    let (out, path) = process("shots/cat.JPG", img, Orientation::Rotate90, 640, ScaleMode::Bars, None, None);
    assert_eq!(path, "cat_vhs.JPG");
    assert_eq!((out.width, out.height), (640, 480));
    let (_, path) = process("cat.png", gradient(2, 2), Orientation::Normal, 480, ScaleMode::Crop, Some("out"), Some("night"));
    assert_eq!(path, "out/night.png");
}

#[test]
fn reframing_keeps_size() {
    let img = gradient(16, 9);
    let once = scale_to_4_3(&img, sw_of(&img), ScaleMode::Bars);
    let twice = scale_to_4_3(&once, sw_of(&once), ScaleMode::Bars);
    assert_eq!((twice.width, twice.height), (once.width, once.height));
    let once = scale_to_4_3(&img, sw_of(&img), ScaleMode::Crop);
    let twice = scale_to_4_3(&once, sw_of(&once), ScaleMode::Crop);
    assert_eq!((twice.width, twice.height), (640, 480));
}

#[test]
fn png_round_trip() {
    let img = gradient(7, 5);
    let bytes = encode_image(&img, "out/x.png").unwrap();
    assert_eq!(&bytes[1..4], b"PNG");
    let back = decode_image("x.PNG", &bytes).unwrap();
    assert_eq!((back.width, back.height), (7, 5));
    assert_eq!(back.rows, img.rows);
}

#[test]
fn encode_needs_known_format() {
    let img = gradient(2, 2);
    assert!(encode_image(&img, "noext").is_none());
    assert!(encode_image(&img, "x.unknownfmt").is_none());
    assert!(encode_image(&img, "x.jpg").is_some());
}

#[test]
fn decode_rejects_wrong_bytes() {
    assert!(decode_image("x.png", b"definitely not a png").is_none());
    let png = encode_image(&gradient(2, 2), "x.png").unwrap();
    assert!(decode_image("x.jpg", &png).is_none());
    assert!(decode_image("noext", &png).is_none());
}

#[test]
fn decode_photo_then_process() {
    let png = encode_image(&gradient(4, 3), "a.png").unwrap();
    let (img, orientation) = decode_photo("dir/a.png", &png).unwrap();
    assert_eq!(orientation, Orientation::Normal);
    assert_eq!(img.rows, gradient(4, 3).rows);
    let (out, path) = process("dir/a.png", img, orientation, 640, ScaleMode::Bars, Some("o"), None);
    assert_eq!(path, "o/a_vhs.png");
    assert_eq!((out.width, out.height), (640, 480));
    let src = gradient(4, 3);
    let direct = scale_to_4_3(&src, 640, ScaleMode::Bars);
    assert_eq!(out.rows, direct.rows);
}

#[test]
fn decode_photo_rejects_junk() {
    assert!(decode_photo("a.png", b"junk").is_none());
    assert!(decode_photo("a", b"junk").is_none());
}

#[test]
fn scaled_width_is_taken_as_given() {
    let img = gradient(16, 9);
    let a = scale_to_4_3(&img, 853, ScaleMode::Bars);
    let b = scale_to_4_3(&img, 854, ScaleMode::Bars);
    assert_eq!(a.width, 853);
    assert_eq!(b.width, 854);
    assert_eq!(sw_of(&Raster { width: 29638, height: 3001, rows: Vec::new() }), 4741);
}

#[test]
fn empty_image_scales_to_black() {
    let img = Raster { width: 0, height: 0, rows: Vec::new() };
    let out = scale_to_4_3(&img, 10, ScaleMode::Bars);
    assert_eq!((out.width, out.height), (640, 480));
    assert!(out.rows.iter().all(|r| r.iter().all(|p| *p == BLACK)));
}
