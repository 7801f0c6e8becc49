//! Which attachment of a Telegram message is kept, and under what name.
use vstd::prelude::*;
use vstd::string::*;

verus! {

/// The kinds of attachment that are downloaded and kept.
#[derive(Debug, Clone, Copy, PartialEq, Eq, Structural)]
pub enum MediaKind {
    /// The largest size of a photo, as JPEG.
    Photo,
    /// A voice message, as OGG/Opus.
    Voice,
    /// A video, as MP4.
    Video,
}

/// The attachment a message keeps: its photo, else its voice message, else its video.
pub fn media_kind(has_photo: bool, has_voice: bool, has_video: bool) -> (r: Option<MediaKind>)
    ensures
        r == if has_photo {
            Some(MediaKind::Photo)
        } else if has_voice {
            Some(MediaKind::Voice)
        } else if has_video {
            Some(MediaKind::Video)
        } else {
            None
        },
{
    if has_photo {
        Some(MediaKind::Photo)
    } else if has_voice {
        Some(MediaKind::Voice)
    } else if has_video {
        Some(MediaKind::Video)
    } else {
        None
    }
}

impl MediaKind {
    /// The content type stored with the log.
    pub fn content_type(self) -> (r: &'static str)
        ensures
            r@ == match self {
                MediaKind::Photo => "photo"@,
                MediaKind::Voice => "voice"@,
                MediaKind::Video => "video"@,
            },
    {
        match self {
            MediaKind::Photo => "photo",
            MediaKind::Voice => "voice",
            MediaKind::Video => "video",
        }
    }

    /// The file extension of the kept file.
    pub fn extension(self) -> (r: &'static str)
        ensures
            r@ == match self {
                MediaKind::Photo => "jpg"@,
                MediaKind::Voice => "ogg"@,
                MediaKind::Video => "mp4"@,
            },
    {
        match self {
            MediaKind::Photo => "jpg",
            MediaKind::Voice => "ogg",
            MediaKind::Video => "mp4",
        }
    }

    /// The MIME type of the kind, when it is fixed; a video has the MIME type
    /// Telegram reports for it.
    pub fn fixed_mime_type(self) -> (r: Option<&'static str>)
        ensures
            match self {
                MediaKind::Photo => r matches Some(m) && m@ == "image/jpeg"@,
                MediaKind::Voice => r matches Some(m) && m@ == "audio/ogg"@,
                MediaKind::Video => r is None,
            },
    {
        match self {
            MediaKind::Photo => Some("image/jpeg"),
            MediaKind::Voice => Some("audio/ogg"),
            MediaKind::Video => None,
        }
    }
}

/// `key.extension`: the name of a kept file in its month directory.
pub fn media_file_name(key: &str, extension: &str) -> (r: String)
    ensures
        r@ == key@ + seq!['.'] + extension@,
{
    let mut out = key.to_owned();
    crate::text::push_char(&mut out, '.');
    out.append(extension);
    out
}

} // verus!
