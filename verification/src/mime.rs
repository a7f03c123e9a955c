use vstd::prelude::*;
use vstd::string::*;
use crate::text::{extension, extension_of, str_eq};

verus! {

/// The media types under which files are handed out.
#[derive(Clone, Copy, Debug, PartialEq, Eq, Structural)]
pub enum MimeKind {
    ImagePng,
    ImageJpeg,
    ImageGif,
    ImageSvg,
    TextCss,
    ApplicationJson,
    ApplicationJavascript,
    TextPlain,
}

/// The media type that goes with a file extension. What is not known is
/// plain text.
pub open spec fn mime_for(ext: Option<Seq<char>>) -> MimeKind {
    match ext {
        Some(ext) => if ext == "png"@ {
            MimeKind::ImagePng
        } else if ext == "jpg"@ || ext == "jpeg"@ {
            MimeKind::ImageJpeg
        } else if ext == "gif"@ {
            MimeKind::ImageGif
        } else if ext == "svg"@ {
            MimeKind::ImageSvg
        } else if ext == "css"@ {
            MimeKind::TextCss
        } else if ext == "json"@ {
            MimeKind::ApplicationJson
        } else if ext == "js"@ {
            MimeKind::ApplicationJavascript
        } else {
            MimeKind::TextPlain
        },
        None => MimeKind::TextPlain,
    }
}

impl MimeKind {
    /// The media type as it is written in a header.
    pub open spec fn text(self) -> Seq<char> {
        match self {
            MimeKind::ImagePng => "image/png"@,
            MimeKind::ImageJpeg => "image/jpeg"@,
            MimeKind::ImageGif => "image/gif"@,
            MimeKind::ImageSvg => "image/svg+xml"@,
            MimeKind::TextCss => "text/css"@,
            MimeKind::ApplicationJson => "application/json"@,
            MimeKind::ApplicationJavascript => "application/javascript"@,
            MimeKind::TextPlain => "text/plain"@,
        }
    }

    pub fn as_str(&self) -> (r: &'static str)
        ensures
            r@ == self.text(),
    {
        match self {
            MimeKind::ImagePng => "image/png",
            MimeKind::ImageJpeg => "image/jpeg",
            MimeKind::ImageGif => "image/gif",
            MimeKind::ImageSvg => "image/svg+xml",
            MimeKind::TextCss => "text/css",
            MimeKind::ApplicationJson => "application/json",
            MimeKind::ApplicationJavascript => "application/javascript",
            MimeKind::TextPlain => "text/plain",
        }
    }
}

/// The media type that goes with a file extension.
pub fn mime_of_extension(ext: Option<&str>) -> (r: MimeKind)
    ensures
        r == mime_for(crate::repository::opt_str(ext)),
{
    match ext {
        Some(ext) => {
            if str_eq(ext, "png") {
                MimeKind::ImagePng
            } else if str_eq(ext, "jpg") || str_eq(ext, "jpeg") {
                MimeKind::ImageJpeg
            } else if str_eq(ext, "gif") {
                MimeKind::ImageGif
            } else if str_eq(ext, "svg") {
                MimeKind::ImageSvg
            } else if str_eq(ext, "css") {
                MimeKind::TextCss
            } else if str_eq(ext, "json") {
                MimeKind::ApplicationJson
            } else if str_eq(ext, "js") {
                MimeKind::ApplicationJavascript
            } else {
                MimeKind::TextPlain
            }
        },
        None => MimeKind::TextPlain,
    }
}

/// The media type to hand a file out under, going by its name.
pub fn guess_mime(file_name: &str) -> (r: MimeKind)
    ensures
        r == mime_for(extension_of(file_name@)),
{
    let ext = extension(file_name);
    match &ext {
        Some(ext) => mime_of_extension(Some(ext.as_str())),
        None => mime_of_extension(None),
    }
}

} // verus!
