use vhsify::path::{
    extension, file_extension, file_name, file_stem, is_image, is_image_extension, is_video,
    is_video_extension, make_output_path, split_name,
};

#[test]
fn file_name_like_std() {
    for p in [
        "a/b/c.txt", "a/b/", "a/b/.", "/", "", ".", "./", "a/..", "..", "foo", "/x/y//", "./a", "a/./b",
        "a/../b", "é/ü.JPG", "dir.d/file",
    ] {
        let expected = std::path::Path::new(p).file_name().map(|s| s.to_str().unwrap());
        assert_eq!(file_name(p), expected, "file_name of {:?}", p);
        let stem = std::path::Path::new(p).file_stem().map(|s| s.to_str().unwrap());
        assert_eq!(file_stem(p), stem, "file_stem of {:?}", p);
        let ext = std::path::Path::new(p).extension().map(|s| s.to_str().unwrap());
        assert_eq!(extension(p), ext, "extension of {:?}", p);
    }
}

#[test]
fn file_name_examples() {
    assert_eq!(file_name("a/b/c.txt"), Some("c.txt"));
    assert_eq!(file_name("a/b/"), Some("b"));
    assert_eq!(file_name("a/b/."), Some("b"));
    assert_eq!(file_name("/"), None);
    assert_eq!(file_name(""), None);
    assert_eq!(file_name("a/.."), None);
}

#[test]
fn stem_and_extension_examples() {
    assert_eq!(split_name(".bashrc"), (".bashrc", None));
    assert_eq!(split_name("foo."), ("foo", Some("")));
    assert_eq!(split_name("a.b.c"), ("a.b", Some("c")));
    assert_eq!(split_name("plain"), ("plain", None));
    assert_eq!(extension("dir.d/file"), None);
    assert_eq!(file_stem("x/.hidden.png"), Some(".hidden"));
    assert_eq!(extension("x/.hidden.png"), Some("png"));
}

#[test]
fn file_extension_lower_cases() {
    assert_eq!(file_extension("Photo.JPG"), "jpg");
    assert_eq!(file_extension("clip.MkV"), "mkv");
    assert_eq!(file_extension("noext"), "");
    assert_eq!(file_extension("dir/"), "");
    assert_eq!(file_extension("x.ÄB"), "äb");
}

#[test]
fn image_and_video_kinds() {
    for p in ["a.jpg", "a.JPEG", "b/c.png", "x.webp", "y.AVIF"] {
        assert!(is_image(p), "{}", p);
        assert!(!is_video(p), "{}", p);
    }
    for p in ["a.mp4", "a.MOV", "b/c.avi", "x.mkv"] {
        assert!(is_video(p), "{}", p);
        assert!(!is_image(p), "{}", p);
    }
    assert!(is_image("a.jpg/"));
    for p in ["a.gif", "noext", "mp4", ".png", "a.jpg/.."] {
        assert!(!is_image(p) && !is_video(p), "{}", p);
    }
}

#[test]
fn extension_lists() {
    assert!(is_image_extension("jpeg"));
    assert!(!is_image_extension("JPG"));
    assert!(!is_image_extension("jp"));
    assert!(is_video_extension("avi"));
    assert!(!is_video_extension("avif"));
}

#[test]
fn default_output_path() {
    assert_eq!(make_output_path("photos/cat.jpg", None, None), "cat_vhs.jpg");
    assert_eq!(make_output_path("clip.MP4", None, None), "clip_vhs.MP4");
    assert_eq!(make_output_path("a.b.png", None, None), "a.b_vhs.png");
}

#[test]
fn output_path_keeps_extension() {
    let out = make_output_path("dir/some.photo.webp", None, None);
    assert_eq!(extension(&out), Some("webp"));
    assert_eq!(file_stem(&out), Some("some.photo_vhs"));
}

#[test]
fn output_path_with_directory_and_name() {
    assert_eq!(make_output_path("cat.jpg", Some("out"), None), "out/cat_vhs.jpg");
    assert_eq!(make_output_path("cat.jpg", Some("out/"), None), "out/cat_vhs.jpg");
    assert_eq!(make_output_path("cat.jpg", Some(""), None), "cat_vhs.jpg");
    assert_eq!(make_output_path("cat.jpg", None, Some("night")), "night.jpg");
    assert_eq!(make_output_path("cat.jpg", Some("out"), Some("night")), "out/night.jpg");
    assert_eq!(make_output_path("cat.jpg", Some("out"), Some("/abs/x")), "/abs/x.jpg");
    let joined = std::path::Path::new("out").join("cat_vhs.jpg");
    assert_eq!(make_output_path("cat.jpg", Some("out"), None), joined.to_str().unwrap());
}

#[test]
fn extension_ignores_directories_and_case() {
    for name in ["a.JPG", "clip.mkv", "x", ".bashrc", "v.tar.GZ"] {
        for dir in ["", "d", "/abs/dir", "a.b/c.d"] {
            let p = format!("{}/{}", dir, name);
            assert_eq!(file_extension(&p), file_extension(name));
        }
        assert_eq!(file_extension(&name.to_ascii_uppercase()), file_extension(name));
    }
}
