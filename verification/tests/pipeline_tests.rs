use vhsify::audio::{add_noise, hiss_noise_bits};
use vhsify::ffmpeg::{
    audio_present, extract_audio_args, extract_frames_args, fps_from_probe_output, probe_fps_args,
    reassemble_args,
};
use vhsify::image::ScaleMode;
use vhsify::progress::progress_status;
use vhsify::text::to_decimal;
use vhsify::video::{is_frame_path, select_frames};

fn strings(v: &[&str]) -> Vec<String> {
    v.iter().map(|s| s.to_string()).collect()
}

#[test]
fn decimal_formatting() {
    assert_eq!(to_decimal(0), "0");
    assert_eq!(to_decimal(7), "7");
    assert_eq!(to_decimal(10), "10");
    assert_eq!(to_decimal(1234567890), "1234567890");
    assert_eq!(to_decimal(u64::MAX), u64::MAX.to_string());
}

#[test]
fn progress_every_twentieth() {
    assert_eq!(progress_status(1, 100), None);
    assert_eq!(progress_status(5, 100), Some("frames 5/100 (5%)\n".to_string()));
    assert_eq!(progress_status(6, 100), None);
    assert_eq!(progress_status(55, 100), Some("frames 55/100 (55%)\n".to_string()));
    assert_eq!(progress_status(100, 100), Some("frames 100/100 (100%)\n".to_string()));
}

#[test]
fn progress_small_totals_report_every_frame() {
    assert_eq!(progress_status(1, 3), Some("frames 1/3 (33%)\n".to_string()));
    assert_eq!(progress_status(2, 3), Some("frames 2/3 (66%)\n".to_string()));
    assert_eq!(progress_status(3, 3), Some("frames 3/3 (100%)\n".to_string()));
}

#[test]
fn progress_last_frame_always_reported() {
    assert_eq!(progress_status(41, 41), Some("frames 41/41 (100%)\n".to_string()));
    assert_eq!(progress_status(40, 41), Some("frames 40/41 (97%)\n".to_string()));
    assert_eq!(progress_status(39, 41), None);
}

#[test]
fn audio_extraction_arguments() {
    assert_eq!(
        extract_audio_args("in.mp4", "/tmp/a.wav"),
        strings(&["-i", "in.mp4", "-vn", "-acodec", "pcm_s16le", "-ar", "44100", "/tmp/a.wav", "-y"])
    );
}

#[test]
fn audio_presence() {
    assert!(audio_present(true, Some(45)));
    assert!(!audio_present(true, Some(44)));
    assert!(!audio_present(true, None));
    assert!(!audio_present(false, Some(1000)));
}

#[test]
fn frame_extraction_arguments() {
    assert_eq!(
        extract_frames_args("v.mov", "/t/frame_%05d.jpg", ScaleMode::Bars),
        strings(&[
            "-i",
            "v.mov",
            "-vf",
            "scale=-2:480,split[pic][bg];[bg]pad=w='max(iw,640)':h=480:x='(ow-iw)/2':y=0,drawbox=x=0:y=0:w=iw:h=ih:color=black:t=fill[canvas];[pic]crop=w='min(iw,640)':h=480[window];[canvas][window]overlay=x='(W-w)/2':y=0",
            "/t/frame_%05d.jpg",
            "-y"
        ])
    );
    assert_eq!(
        extract_frames_args("v.mov", "p", ScaleMode::Crop)[3],
        "scale=-2:480,crop=w='min(iw,640)':h=480,pad=w=640:h=480:x='(ow-iw)/2':y=0"
    );
}

#[test]
fn probe_arguments() {
    assert_eq!(
        probe_fps_args("v.mkv"),
        strings(&[
            "-v",
            "error",
            "-select_streams",
            "v:0",
            "-show_entries",
            "stream=r_frame_rate",
            "-of",
            "csv=p=0",
            "v.mkv"
        ])
    );
}

#[test]
fn fps_cleanup() {
    assert_eq!(fps_from_probe_output("30000/1001,\n".as_bytes()), "30000/1001");
    assert_eq!(fps_from_probe_output("  25/1 \r\n".as_bytes()), "25/1");
    assert_eq!(fps_from_probe_output("24/1,,".as_bytes()), "24/1");
    assert_eq!(fps_from_probe_output("".as_bytes()), "");
    assert_eq!(fps_from_probe_output("\u{a0}30/1\u{3000}".as_bytes()), "30/1");
    assert_eq!(fps_from_probe_output(", 30/1".as_bytes()), ", 30/1");
    assert_eq!(fps_from_probe_output("30/1, ".as_bytes()), "30/1");
    assert_eq!(fps_from_probe_output(b"25/1\xff,\n"), "25/1\u{fffd}");
    for s in ["30000/1001,\n", " a,, ", ",,", "\t", "x,\u{2028}"] {
        assert_eq!(fps_from_probe_output(s.as_bytes()), s.trim().trim_end_matches(','));
    }
}

#[test]
fn reassemble_with_audio() {
    assert_eq!(
        reassemble_args("f_%05d.jpg", "25/1", "out.mp4", Some("a.wav")),
        strings(&[
            "-r", "25/1", "-i", "f_%05d.jpg", "-i", "a.wav", "-map", "0:v", "-map", "1:a", "-c:a",
            "aac", "-pix_fmt", "yuv420p", "out.mp4", "-y"
        ])
    );
}

#[test]
fn reassemble_without_audio() {
    assert_eq!(
        reassemble_args("f_%05d.jpg", "30/1", "out.mkv", None),
        strings(&["-r", "30/1", "-i", "f_%05d.jpg", "-map", "0:v", "-pix_fmt", "yuv420p", "out.mkv", "-y"])
    );
}

#[test]
fn frames_are_filtered_and_sorted() {
    let entries = strings(&[
        "/t/frame_00002.jpg",
        "/t/progress.txt",
        "/t/frame_00010.jpg",
        "/t/audio_raw.wav",
        "/t/frame_00001.jpg",
        "/t/frame_00003.JPG",
    ]);
    assert_eq!(
        select_frames(&entries),
        strings(&["/t/frame_00001.jpg", "/t/frame_00002.jpg", "/t/frame_00010.jpg"])
    );
    assert_eq!(select_frames(&Vec::new()), Vec::<String>::new());
}

#[test]
fn frame_order_matches_path_order() {
    let entries = strings(&["d/b.jpg", "d/a.jpg", "d/ab.jpg", "d/B.jpg", "d/é.jpg", "d/a.jpg"]);
    let mut expected: Vec<std::path::PathBuf> =
        entries.iter().map(std::path::PathBuf::from).collect();
    expected.sort();
    let expected: Vec<String> = expected.iter().map(|p| p.to_str().unwrap().to_string()).collect();
    assert_eq!(select_frames(&entries), expected);
}

#[test]
fn frame_paths() {
    assert!(is_frame_path("x/frame_00001.jpg"));
    assert!(!is_frame_path("x/frame_00001.JPG"));
    assert!(!is_frame_path("x/.jpg"));
    assert!(!is_frame_path("x/progress.txt"));
}

#[test]
fn hiss_generator_sequence() {
    let bits = hiss_noise_bits(4);
    let mut rng: u64 = 0xdeadbeef;
    for b in bits {
        rng = rng.wrapping_mul(6364136223846793005).wrapping_add(1442695040888963407);
        assert_eq!(b, (rng >> 32) as u32);
    }
    assert!(hiss_noise_bits(0).is_empty());
    let many = hiss_noise_bits(1000);
    assert!(many.iter().any(|b| *b >= (1u32 << 31)));
    assert!(many.iter().any(|b| *b < (1u32 << 31)));
}

#[test]
fn noise_saturates() {
    let out = add_noise(&vec![0, 100, 32760, -32760, i16::MAX], &vec![-5, 0, 20, -20, i32::MAX]);
    assert_eq!(out, vec![-5, 100, 32767, -32768, 32767]);
}
