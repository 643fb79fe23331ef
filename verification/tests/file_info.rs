use file_scanner::models::FileCategory;
use file_scanner::scanner::file_info::{
    classify_extension, classify_lowercase, get_extension, same_ignoring_case,
};

#[test]
fn test_classify_documents() {
    assert_eq!(classify_extension("pdf"), FileCategory::Document);
    assert_eq!(classify_extension("PDF"), FileCategory::Document);
    assert_eq!(classify_extension("docx"), FileCategory::Document);
    assert_eq!(classify_extension("txt"), FileCategory::Document);
    assert_eq!(classify_extension("xlsx"), FileCategory::Document);
}

#[test]
fn test_classify_images() {
    assert_eq!(classify_extension("jpg"), FileCategory::Image);
    assert_eq!(classify_extension("JPEG"), FileCategory::Image);
    assert_eq!(classify_extension("png"), FileCategory::Image);
    assert_eq!(classify_extension("gif"), FileCategory::Image);
    assert_eq!(classify_extension("webp"), FileCategory::Image);
}

#[test]
fn test_classify_videos() {
    assert_eq!(classify_extension("mp4"), FileCategory::Video);
    assert_eq!(classify_extension("MP4"), FileCategory::Video);
    assert_eq!(classify_extension("avi"), FileCategory::Video);
    assert_eq!(classify_extension("mkv"), FileCategory::Video);
    assert_eq!(classify_extension("webm"), FileCategory::Video);
}

#[test]
fn test_classify_audio() {
    assert_eq!(classify_extension("mp3"), FileCategory::Audio);
    assert_eq!(classify_extension("MP3"), FileCategory::Audio);
    assert_eq!(classify_extension("wav"), FileCategory::Audio);
    assert_eq!(classify_extension("flac"), FileCategory::Audio);
    assert_eq!(classify_extension("aac"), FileCategory::Audio);
}

#[test]
fn test_classify_other() {
    assert_eq!(classify_extension("exe"), FileCategory::Other);
    assert_eq!(classify_extension("dll"), FileCategory::Other);
    assert_eq!(classify_extension("unknown"), FileCategory::Other);
    assert_eq!(classify_extension(""), FileCategory::Other);
}

#[test]
fn test_get_extension() {
    assert_eq!(get_extension("file.txt"), "txt");
    assert_eq!(get_extension("file.TXT"), "txt");
    assert_eq!(get_extension("file.tar.gz"), "gz");
    assert_eq!(get_extension("file"), "");
    assert_eq!(get_extension(".hidden"), "hidden");
}

#[test]
fn classifier_ignores_case_and_is_total() {
    assert_eq!(classify_extension("PDF"), classify_extension("pdf"));
    assert_eq!(classify_extension("pdf"), FileCategory::Document);
    assert_eq!(classify_extension(""), FileCategory::Other);
    assert_eq!(classify_extension("zzz-unknown"), FileCategory::Other);
    assert_eq!(classify_extension("JpEg"), classify_extension("jpeg"));
    assert_eq!(classify_extension("Mp3"), FileCategory::Audio);
}

#[test]
fn classifier_covers_every_table_entry() {
    let documents = [
        "pdf", "doc", "docx", "txt", "xls", "xlsx", "ppt", "pptx", "odt", "ods", "odp", "rtf",
        "csv", "md", "json", "xml", "html", "htm",
    ];
    let images = [
        "jpg", "jpeg", "png", "gif", "bmp", "svg", "webp", "ico", "tiff", "tif", "raw", "heic",
        "heif",
    ];
    let videos = [
        "mp4", "avi", "mkv", "mov", "wmv", "flv", "webm", "m4v", "mpeg", "mpg", "3gp", "ts",
    ];
    let audio = ["mp3", "wav", "flac", "aac", "ogg", "m4a", "wma", "aiff", "alac", "opus"];
    for e in documents {
        assert_eq!(classify_extension(e), FileCategory::Document);
        assert_eq!(classify_extension(&e.to_uppercase()), FileCategory::Document);
    }
    for e in images {
        assert_eq!(classify_extension(e), FileCategory::Image);
        assert_eq!(classify_extension(&e.to_uppercase()), FileCategory::Image);
    }
    for e in videos {
        assert_eq!(classify_extension(e), FileCategory::Video);
        assert_eq!(classify_extension(&e.to_uppercase()), FileCategory::Video);
    }
    for e in audio {
        assert_eq!(classify_extension(e), FileCategory::Audio);
        assert_eq!(classify_extension(&e.to_uppercase()), FileCategory::Audio);
    }
}

#[test]
fn lookup_without_case_folding_is_exact() {
    assert_eq!(classify_lowercase("pdf"), FileCategory::Document);
    assert_eq!(classify_lowercase("PDF"), FileCategory::Other);
    assert_eq!(classify_lowercase("pdfx"), FileCategory::Other);
    assert_eq!(classify_lowercase("pd"), FileCategory::Other);
    assert_eq!(classify_lowercase(""), FileCategory::Other);
}

#[test]
fn extension_edge_cases() {
    assert_eq!(get_extension(""), "");
    assert_eq!(get_extension("file."), "");
    assert_eq!(get_extension("."), "");
    assert_eq!(get_extension("archive.TAR.GZ"), "gz");
    assert_eq!(get_extension("a.b.c.D"), "d");
    assert_eq!(get_extension("r\u{e9}sum\u{e9}.PDF"), "pdf");
    assert_eq!(get_extension("notes.\u{c4}\u{d6}"), "\u{e4}\u{f6}");
}

#[test]
fn texts_that_differ_in_case_only_are_the_same_ignoring_case() {
    assert!(same_ignoring_case("PDF", "pdf"));
    assert!(same_ignoring_case("JpEg", "jPeG"));
    assert!(same_ignoring_case("", ""));
    assert!(same_ignoring_case("\u{c4}", "\u{e4}"));
    assert!(!same_ignoring_case("pdf", "pdfx"));
    assert!(!same_ignoring_case("pdf", "pdg"));
    assert!(!same_ignoring_case("pdf", ""));
    for (a, b) in [("PDF", "pdf"), ("Mp3", "mP3"), ("TXT", "txt"), ("XYZ", "xyz")] {
        assert!(same_ignoring_case(a, b));
        assert_eq!(classify_extension(a), classify_extension(b));
    }
}
