use luminaire::classify::{classify, is_image, is_media_file, is_video, filename_of, MediaKind};

#[test]
fn image_extensions_all_classify_as_image() {
    let exts = ["jpg", "jpeg", "png", "gif", "webp", "heic", "heif", "tiff", "bmp"];
    for e in exts {
        let p = format!("/photos/a.{}", e);
        assert!(is_image(&p), "{}", p);
        assert!(is_media_file(&p));
        assert!(matches!(classify(&p), Some(MediaKind::Image)));
    }
}

#[test]
fn video_extensions_all_classify_as_video() {
    let exts = ["mp4", "mkv", "mov", "avi", "webm", "m4v"];
    for e in exts {
        let p = format!("/videos/b.{}", e);
        assert!(is_video(&p), "{}", p);
        assert!(is_media_file(&p));
        assert!(matches!(classify(&p), Some(MediaKind::Video)));
    }
}

#[test]
fn classification_is_case_insensitive() {
    assert!(is_image("/x/PHOTO.JPG"));
    assert!(is_image("/x/photo.JpEg"));
    assert!(is_video("/x/clip.MP4"));
    assert!(matches!(classify("/x/PHOTO.JPG"), Some(MediaKind::Image)));
}

#[test]
fn unknown_or_missing_extensions_are_not_media() {
    assert!(classify("/docs/notes.txt").is_none());
    assert!(classify("/docs/archive.tar.gz").is_none());
    assert!(classify("/docs/README").is_none());
    assert!(classify("/docs/.hidden").is_none());
    assert!(classify("").is_none());
    assert!(!is_media_file("/docs/notes.txt"));
}

#[test]
fn extension_comes_from_the_filename_only() {
    // the dot in the directory name must not count as an extension
    assert!(classify("/pics.jpg/readme").is_none());
    assert!(is_image("/pics.d/img.png"));
}

#[test]
fn filename_is_the_part_after_the_last_slash() {
    assert_eq!(filename_of("/a/b/c.jpg"), "c.jpg");
    assert_eq!(filename_of("c.jpg"), "c.jpg");
    assert_eq!(filename_of("/a/b/"), "");
}
