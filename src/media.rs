use vstd::prelude::*;
use crate::paths::{extension_of, path_extension};
use crate::text::{chars_of, equals_str, lower, to_lower};

verus! {

/// The kind of a media file tracked by a library.
#[derive(Debug, Clone, Copy, PartialEq, Eq, Structural)]
pub enum MediaType {
    Image,
    Video,
}

impl MediaType {
    pub open spec fn name_spec(self) -> Seq<char> {
        match self {
            MediaType::Image => "image"@,
            MediaType::Video => "video"@,
        }
    }

    pub open spec fn folder_spec(self) -> Seq<char> {
        match self {
            MediaType::Image => "images"@,
            MediaType::Video => "videos"@,
        }
    }

    /// The name under which the index stores this kind.
    pub fn as_str(&self) -> (r: &'static str)
        ensures
            r@ == self.name_spec(),
    {
        match self {
            MediaType::Image => "image",
            MediaType::Video => "video",
        }
    }

    /// The top-level folder of a library that holds files of this kind.
    pub fn folder_name(&self) -> (r: &'static str)
        ensures
            r@ == self.folder_spec(),
    {
        match self {
            MediaType::Image => "images",
            MediaType::Video => "videos",
        }
    }
}

/// Lower-case extensions of image files, RAW formats included.
pub open spec fn is_image_extension(e: Seq<char>) -> bool {
    ||| e == "jpg"@
    ||| e == "jpeg"@
    ||| e == "png"@
    ||| e == "gif"@
    ||| e == "bmp"@
    ||| e == "tiff"@
    ||| e == "tif"@
    ||| e == "webp"@
    ||| e == "heic"@
    ||| e == "heif"@
    ||| e == "avif"@
    ||| e == "raw"@
    ||| e == "cr2"@
    ||| e == "cr3"@
    ||| e == "nef"@
    ||| e == "orf"@
    ||| e == "arw"@
    ||| e == "dng"@
    ||| e == "sr2"@
    ||| e == "raf"@
    ||| e == "rw2"@
    ||| e == "pef"@
}

/// Lower-case extensions of video files.
pub open spec fn is_video_extension(e: Seq<char>) -> bool {
    ||| e == "mp4"@
    ||| e == "mov"@
    ||| e == "m4v"@
    ||| e == "avi"@
    ||| e == "mkv"@
    ||| e == "webm"@
    ||| e == "mts"@
    ||| e == "m2ts"@
    ||| e == "3gp"@
    ||| e == "wmv"@
    ||| e == "flv"@
}

/// The kind that the extension table gives a path, compared without regard to case.
pub open spec fn media_type_of(p: Seq<char>) -> Option<MediaType> {
    match extension_of(p) {
        Some(e) => if is_image_extension(lower(e)) {
            Some(MediaType::Image)
        } else if is_video_extension(lower(e)) {
            Some(MediaType::Video)
        } else {
            None
        },
        None => None,
    }
}

/// The kind of a file, where the extension table decides first and a probe
/// that found a video stream decides the rest.
pub open spec fn classified(p: Seq<char>, probed_video: bool) -> Option<MediaType> {
    match media_type_of(p) {
        Some(t) => Some(t),
        None => if probed_video {
            Some(MediaType::Video)
        } else {
            None
        },
    }
}

fn image_extension(e: &Vec<char>) -> (r: bool)
    ensures
        r == is_image_extension(e@),
{
    equals_str(e, "jpg") || equals_str(e, "jpeg") || equals_str(e, "png") || equals_str(e, "gif")
        || equals_str(e, "bmp") || equals_str(e, "tiff") || equals_str(e, "tif") || equals_str(
        e,
        "webp",
    ) || equals_str(e, "heic") || equals_str(e, "heif") || equals_str(e, "avif") || equals_str(
        e,
        "raw",
    ) || equals_str(e, "cr2") || equals_str(e, "cr3") || equals_str(e, "nef") || equals_str(
        e,
        "orf",
    ) || equals_str(e, "arw") || equals_str(e, "dng") || equals_str(e, "sr2") || equals_str(
        e,
        "raf",
    ) || equals_str(e, "rw2") || equals_str(e, "pef")
}

fn video_extension(e: &Vec<char>) -> (r: bool)
    ensures
        r == is_video_extension(e@),
{
    equals_str(e, "mp4") || equals_str(e, "mov") || equals_str(e, "m4v") || equals_str(e, "avi")
        || equals_str(e, "mkv") || equals_str(e, "webm") || equals_str(e, "mts") || equals_str(
        e,
        "m2ts",
    ) || equals_str(e, "3gp") || equals_str(e, "wmv") || equals_str(e, "flv")
}

/// Detects the kind of a media file from the extension of its path, without
/// regard to case. A path whose extension is in neither table gives `None`.
pub fn detect_media_type(path: &str) -> (r: Option<MediaType>)
    ensures
        r == media_type_of(path@),
{
    let p = chars_of(path);
    match path_extension(&p) {
        Some(e) => {
            let low = to_lower(&e);
            if image_extension(&low) {
                Some(MediaType::Image)
            } else if video_extension(&low) {
                Some(MediaType::Video)
            } else {
                None
            }
        },
        None => None,
    }
}

/// Classifies a file: by the extension table first; a file that the table does
/// not know is a video when a probe of its content found a video stream, and
/// is left out of imports otherwise.
pub fn classify(path: &str, probed_video: bool) -> (r: Option<MediaType>)
    ensures
        r == classified(path@, probed_video),
{
    match detect_media_type(path) {
        Some(t) => Some(t),
        None => if probed_video {
            Some(MediaType::Video)
        } else {
            None
        },
    }
}

} // verus!
