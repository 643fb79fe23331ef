//! File type classification by extension.

use vstd::prelude::*;
use vstd::string::*;
use crate::models::file_entry::FileCategory;
use crate::text::{lowercase, lowercase_of, text_eq};

verus! {

/// The extensions of documents, in lower case.
pub open spec fn is_document_extension(e: Seq<char>) -> bool {
    ||| e == "pdf"@
    ||| e == "doc"@
    ||| e == "docx"@
    ||| e == "txt"@
    ||| e == "xls"@
    ||| e == "xlsx"@
    ||| e == "ppt"@
    ||| e == "pptx"@
    ||| e == "odt"@
    ||| e == "ods"@
    ||| e == "odp"@
    ||| e == "rtf"@
    ||| e == "csv"@
    ||| e == "md"@
    ||| e == "json"@
    ||| e == "xml"@
    ||| e == "html"@
    ||| e == "htm"@
}

/// The extensions of images, in lower case.
pub open spec fn is_image_extension(e: Seq<char>) -> bool {
    ||| e == "jpg"@
    ||| e == "jpeg"@
    ||| e == "png"@
    ||| e == "gif"@
    ||| e == "bmp"@
    ||| e == "svg"@
    ||| e == "webp"@
    ||| e == "ico"@
    ||| e == "tiff"@
    ||| e == "tif"@
    ||| e == "raw"@
    ||| e == "heic"@
    ||| e == "heif"@
}

/// The extensions of videos, in lower case.
pub open spec fn is_video_extension(e: Seq<char>) -> bool {
    ||| e == "mp4"@
    ||| e == "avi"@
    ||| e == "mkv"@
    ||| e == "mov"@
    ||| e == "wmv"@
    ||| e == "flv"@
    ||| e == "webm"@
    ||| e == "m4v"@
    ||| e == "mpeg"@
    ||| e == "mpg"@
    ||| e == "3gp"@
    ||| e == "ts"@
}

/// The extensions of audio files, in lower case.
pub open spec fn is_audio_extension(e: Seq<char>) -> bool {
    ||| e == "mp3"@
    ||| e == "wav"@
    ||| e == "flac"@
    ||| e == "aac"@
    ||| e == "ogg"@
    ||| e == "m4a"@
    ||| e == "wma"@
    ||| e == "aiff"@
    ||| e == "alac"@
    ||| e == "opus"@
}

/// The category of an extension that is already in lower case. What is in no
/// table, the empty extension included, is `Other`.
pub open spec fn category_of(e: Seq<char>) -> FileCategory {
    if is_document_extension(e) {
        FileCategory::Document
    } else if is_image_extension(e) {
        FileCategory::Image
    } else if is_video_extension(e) {
        FileCategory::Video
    } else if is_audio_extension(e) {
        FileCategory::Audio
    } else {
        FileCategory::Other
    }
}

/// The category of an extension written in any case.
pub open spec fn classification(extension: Seq<char>) -> FileCategory {
    category_of(lowercase_of(extension))
}

fn in_documents(e: &str) -> (found: bool)
    ensures
        found == is_document_extension(e@),
{
    text_eq(e, "pdf") || text_eq(e, "doc") || text_eq(e, "docx") || text_eq(e, "txt") || text_eq(
        e,
        "xls",
    ) || text_eq(e, "xlsx") || text_eq(e, "ppt") || text_eq(e, "pptx") || text_eq(e, "odt")
        || text_eq(e, "ods") || text_eq(e, "odp") || text_eq(e, "rtf") || text_eq(e, "csv")
        || text_eq(e, "md") || text_eq(e, "json") || text_eq(e, "xml") || text_eq(e, "html")
        || text_eq(e, "htm")
}

fn in_images(e: &str) -> (found: bool)
    ensures
        found == is_image_extension(e@),
{
    text_eq(e, "jpg") || text_eq(e, "jpeg") || text_eq(e, "png") || text_eq(e, "gif") || text_eq(
        e,
        "bmp",
    ) || text_eq(e, "svg") || text_eq(e, "webp") || text_eq(e, "ico") || text_eq(e, "tiff")
        || text_eq(e, "tif") || text_eq(e, "raw") || text_eq(e, "heic") || text_eq(e, "heif")
}

fn in_videos(e: &str) -> (found: bool)
    ensures
        found == is_video_extension(e@),
{
    text_eq(e, "mp4") || text_eq(e, "avi") || text_eq(e, "mkv") || text_eq(e, "mov") || text_eq(
        e,
        "wmv",
    ) || text_eq(e, "flv") || text_eq(e, "webm") || text_eq(e, "m4v") || text_eq(e, "mpeg")
        || text_eq(e, "mpg") || text_eq(e, "3gp") || text_eq(e, "ts")
}

fn in_audio(e: &str) -> (found: bool)
    ensures
        found == is_audio_extension(e@),
{
    text_eq(e, "mp3") || text_eq(e, "wav") || text_eq(e, "flac") || text_eq(e, "aac") || text_eq(
        e,
        "ogg",
    ) || text_eq(e, "m4a") || text_eq(e, "wma") || text_eq(e, "aiff") || text_eq(e, "alac")
        || text_eq(e, "opus")
}

/// Looks an extension up in the tables as it stands, without changing its case.
pub fn classify_lowercase(extension: &str) -> (category: FileCategory)
    ensures
        category == category_of(extension@),
        category != FileCategory::Folder,
{
    if in_documents(extension) {
        FileCategory::Document
    } else if in_images(extension) {
        FileCategory::Image
    } else if in_videos(extension) {
        FileCategory::Video
    } else if in_audio(extension) {
        FileCategory::Audio
    } else {
        FileCategory::Other
    }
}

/// Classifies a file extension, whatever its case. Every extension has a
/// category, and none is a folder.
pub fn classify_extension(extension: &str) -> (category: FileCategory)
    ensures
        category == classification(extension@),
        category != FileCategory::Folder,
{
    let lower = lowercase(extension);
    classify_lowercase(lower.as_str())
}

/// Two extensions with the same lower-case form have the same category: the
/// classifier does not see the case of its input.
pub proof fn lemma_classification_ignores_case(a: Seq<char>, b: Seq<char>)
    requires
        lowercase_of(a) == lowercase_of(b),
    ensures
        classification(a) == classification(b),
{
}

/// Tells whether two texts have the same lower-case form. Two extensions
/// that have it are classified alike.
pub fn same_ignoring_case(a: &str, b: &str) -> (same: bool)
    ensures
        same == (lowercase_of(a@) == lowercase_of(b@)),
        same ==> classification(a@) == classification(b@),
{
    let lower_a = lowercase(a);
    let lower_b = lowercase(b);
    let same = text_eq(lower_a.as_str(), lower_b.as_str());
    proof {
        if same {
            lemma_classification_ignores_case(a@, b@);
        }
    }
    same
}

/// Every extension falls under exactly one of the five categories of files.
pub proof fn lemma_classification_total(extension: Seq<char>)
    ensures
        classification(extension) != FileCategory::Folder,
        classification(extension) == FileCategory::Other <==> !(is_document_extension(
            lowercase_of(extension),
        ) || is_image_extension(lowercase_of(extension)) || is_video_extension(
            lowercase_of(extension),
        ) || is_audio_extension(lowercase_of(extension))),
{
}

/// Position of the last dot of a text, or -1 where it has none.
pub open spec fn last_dot(s: Seq<char>) -> int
    decreases s.len(),
{
    if s.len() == 0 {
        -1
    } else if s.last() == '.' {
        s.len() - 1
    } else {
        last_dot(s.drop_last())
    }
}

/// What follows the last dot of a file name; empty where the name has no dot.
pub open spec fn extension_of(name: Seq<char>) -> Seq<char> {
    if last_dot(name) < 0 {
        Seq::<char>::empty()
    } else {
        name.subrange(last_dot(name) + 1, name.len() as int)
    }
}

/// The extension of a file name as an entry records it: in lower case, without
/// the dot.
pub open spec fn lower_extension_of(name: Seq<char>) -> Seq<char> {
    if last_dot(name) < 0 {
        Seq::<char>::empty()
    } else {
        lowercase_of(extension_of(name))
    }
}

/// The last dot lies inside the text, and no dot follows it.
pub proof fn lemma_last_dot(s: Seq<char>)
    ensures
        -1 <= last_dot(s) < s.len(),
        last_dot(s) >= 0 ==> s[last_dot(s)] == '.',
        forall|i: int| last_dot(s) < i < s.len() ==> s[i] != '.',
    decreases s.len(),
{
    if s.len() > 0 && s.last() != '.' {
        let head = s.drop_last();
        lemma_last_dot(head);
        assert forall|i: int| last_dot(s) < i < s.len() implies s[i] != '.' by {
            if i < head.len() {
                assert(head[i] == s[i]);
            }
        }
    }
}

/// The extension holds no dot, and a name with a dot is what stands before its
/// last dot, the dot, and its extension.
pub proof fn lemma_extension_of(name: Seq<char>)
    ensures
        forall|i: int| 0 <= i < extension_of(name).len() ==> extension_of(name)[i] != '.',
        last_dot(name) >= 0 ==> name == name.subrange(0, last_dot(name)) + seq!['.']
            + extension_of(name),
        last_dot(name) < 0 ==> forall|i: int| 0 <= i < name.len() ==> name[i] != '.',
{
    lemma_last_dot(name);
    if last_dot(name) >= 0 {
        assert(name =~= name.subrange(0, last_dot(name)) + seq!['.'] + extension_of(name));
    }
}

fn find_last_dot(s: &str) -> (found: Option<usize>)
    ensures
        match found {
            Some(i) => i == last_dot(s@),
            None => last_dot(s@) == -1,
        },
{
    broadcast use vstd::string::group_string_axioms;

    let total = s.unicode_len();
    let mut found: Option<usize> = None;
    let mut n: usize = 0;
    for c in it: s.chars()
        invariant
            it.seq() == s@,
            total == s@.len(),
            n == it.index(),
            match found {
                Some(i) => i == last_dot(s@.take(n as int)),
                None => last_dot(s@.take(n as int)) == -1,
            },
    {
        assert(c == s@[n as int]);
        assert(s@.take(n + 1).drop_last() =~= s@.take(n as int));
        if c == '.' {
            found = Some(n);
        }
        n = n + 1;
    }
    assert(s@.take(n as int) =~= s@);
    found
}

/// The extension of a file name: what follows its last dot, in lower case.
/// A name without a dot has the empty extension.
pub fn get_extension(filename: &str) -> (extension: String)
    ensures
        extension@ == lower_extension_of(filename@),
{
    match find_last_dot(filename) {
        None => String::new(),
        Some(dot) => {
            proof {
                lemma_last_dot(filename@);
            }
            let total = filename.unicode_len();
            let tail = filename.substring_char(dot + 1, total);
            lowercase(tail)
        },
    }
}

} // verus!
