//! Errors of mesh parsing, analysis and processing.
use vstd::prelude::*;
use crate::text::{decimal_text, i32_to_decimal, signed_decimal_text, u64_to_decimal};

verus! {

/// Failures of the 3D model pipeline that the library itself decides.
pub enum Model3DError {
    ParseFailed(String),
    UnsupportedFormat(String),
    GeometryAnalysisFailed(String),
    ThumbnailGenerationFailed(String),
    AITaggingFailed(String),
    /// A file path whose extension is not a 3D model format: its id and extension.
    UnsupportedExtension(i32, String),
    /// A file path too big to process: its id and size.
    FileTooBig(i32, usize),
    /// A field of a file path record is missing: the field's name.
    IsolateFilePathData(String),
    /// Reading or writing a file failed: the I/O error's text.
    Io(String),
}

/// `e` is `ParseFailed` with the message `msg`.
pub open spec fn is_parse_failed(e: Model3DError, msg: Seq<char>) -> bool {
    e matches Model3DError::ParseFailed(m) && m@ == msg
}

/// `e` is `UnsupportedFormat` naming `ext`.
pub open spec fn is_unsupported_format(e: Model3DError, ext: Seq<char>) -> bool {
    e matches Model3DError::UnsupportedFormat(m) && m@ == ext
}

/// `e` is `GeometryAnalysisFailed` with the message `msg`.
pub open spec fn is_geometry_failed(e: Model3DError, msg: Seq<char>) -> bool {
    e matches Model3DError::GeometryAnalysisFailed(m) && m@ == msg
}

/// `e` is `AITaggingFailed` with the message `msg`.
pub open spec fn is_tagging_failed(e: Model3DError, msg: Seq<char>) -> bool {
    e matches Model3DError::AITaggingFailed(m) && m@ == msg
}

/// The text of a library error.
pub open spec fn model3d_error_text(e: Model3DError) -> Seq<char> {
    match e {
        Model3DError::ParseFailed(m) => "failed to parse 3D model: "@ + m@,
        Model3DError::UnsupportedFormat(m) => "unsupported 3D format: "@ + m@,
        Model3DError::GeometryAnalysisFailed(m) => "geometry analysis failed: "@ + m@,
        Model3DError::ThumbnailGenerationFailed(m) => "thumbnail generation failed: "@ + m@,
        Model3DError::AITaggingFailed(m) => "AI tagging failed: "@ + m@,
        Model3DError::UnsupportedExtension(id, ext) => "file_path with unsupported extension: <id='"@
            + signed_decimal_text(id as int) + "', extension='"@ + ext@ + "'>"@,
        Model3DError::FileTooBig(id, size) => "file_path too big: <id='"@ + signed_decimal_text(id as int)
            + "', size='"@ + decimal_text(size as nat) + "'>"@,
        Model3DError::IsolateFilePathData(m) => "failed to get isolated file path data: "@ + m@,
        Model3DError::Io(m) => "IO error: "@ + m@,
    }
}

fn concat2(a: &str, b: &str) -> (r: String)
    ensures
        r@ == a@ + b@,
{
    let mut r = a.to_owned();
    r.append(b);
    r
}

impl Model3DError {
    /// The text of the error.
    pub fn message(&self) -> (r: String)
        ensures
            r@ == model3d_error_text(*self),
    {
        match self {
            Model3DError::ParseFailed(m) => concat2("failed to parse 3D model: ", m.as_str()),
            Model3DError::UnsupportedFormat(m) => concat2("unsupported 3D format: ", m.as_str()),
            Model3DError::GeometryAnalysisFailed(m) => concat2("geometry analysis failed: ", m.as_str()),
            Model3DError::ThumbnailGenerationFailed(m) => concat2("thumbnail generation failed: ", m.as_str()),
            Model3DError::AITaggingFailed(m) => concat2("AI tagging failed: ", m.as_str()),
            Model3DError::UnsupportedExtension(id, ext) => {
                let mut r = concat2("file_path with unsupported extension: <id='", i32_to_decimal(*id).as_str());
                r.append("', extension='");
                r.append(ext.as_str());
                r.append("'>");
                r
            },
            Model3DError::FileTooBig(id, size) => {
                let mut r = concat2("file_path too big: <id='", i32_to_decimal(*id).as_str());
                r.append("', size='");
                r.append(u64_to_decimal(*size as u64).as_str());
                r.append("'>");
                r
            },
            Model3DError::IsolateFilePathData(m) => concat2("failed to get isolated file path data: ", m.as_str()),
            Model3DError::Io(m) => concat2("IO error: ", m.as_str()),
        }
    }
}

} // verus!
