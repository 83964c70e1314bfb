//! Whether an identified image is rewritten.
use vstd::prelude::*;

verus! {

/// The interlace scheme that image identification reports for a file.
#[derive(Clone, Copy, Debug, PartialEq, Eq, Structural)]
pub enum Interlace {
    /// The identifier could not tell.
    Undefined,
    /// Not interlaced.
    No,
    /// Line (progressive) interlacing.
    Line,
    /// Any other interlace scheme (plane, partition, format-specific).
    Other,
}

/// What image identification reports about one file.
#[derive(Clone, Debug)]
pub struct ImageMetadata {
    /// The format name, such as `JPEG`, `PNG` or `GIF`.
    pub format: String,
    pub interlace: Interlace,
}

/// The outcome of the transform decision.
#[derive(Clone, Copy, Debug, PartialEq, Eq, Structural)]
pub enum Decision {
    Skip,
    Transform,
}

/// Formats that are rewritten: JPEG and PNG always, GIF only when allowed.
pub open spec fn format_allowed(format: Seq<char>, allow_gif: bool) -> bool {
    format == "JPEG"@ || format == "PNG"@ || (allow_gif && format == "GIF"@)
}

/// A file is transformed exactly when it is not interlaced yet (or its state
/// is unknown) and its format is one that is rewritten.
pub open spec fn decide_spec(interlace: Interlace, format: Seq<char>, allow_gif: bool) -> Decision {
    if (interlace == Interlace::No || interlace == Interlace::Undefined) && format_allowed(
        format,
        allow_gif,
    ) {
        Decision::Transform
    } else {
        Decision::Skip
    }
}

/// Decides whether the file described by `metadata` is rewritten.
pub fn decide(metadata: &ImageMetadata, allow_gif: bool) -> (r: Decision)
    ensures
        r == decide_spec(metadata.interlace, metadata.format@, allow_gif),
{
    match metadata.interlace {
        Interlace::No | Interlace::Undefined => {
            let jpeg = String::from_str("JPEG");
            let png = String::from_str("PNG");
            let gif = String::from_str("GIF");
            if metadata.format == jpeg || metadata.format == png || (allow_gif
                && metadata.format == gif) {
                Decision::Transform
            } else {
                Decision::Skip
            }
        },
        _ => Decision::Skip,
    }
}

} // verus!
