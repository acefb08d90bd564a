//! Planner errors: the reasons a job or a source is refused.

use vstd::prelude::*;

verus! {

/// Why planning refused a job. Terse technical diagnostics, not user-facing copy.
#[derive(Clone, Debug, PartialEq)]
pub enum EngineError {
    /// The JobSpec names a schema other than [`crate::types::SCHEMA_ID`].
    SchemaMismatch { expected: String, got: String },
    /// A scheme the planner does not implement.
    UnsupportedScheme(&'static str),
    /// The job (or the loaded set) names no source.
    NoSources,
    /// A source id that no loaded source carries.
    UnknownSource(String),
    /// A source with no pages, or a page index past its end.
    EmptySource { id: String },
    /// An N-up grid with zero rows or columns.
    EmptyGrid { rows: u32, cols: u32 },
    /// The sheet leaves no room for a cell along `axis`.
    SheetTooSmall { axis: &'static str },
    /// A work style the duplex back does not support.
    WorkStyleUnsupported(&'static str),
    /// The duplex back source's page count differs from the front's (1:1 pairing).
    BackCountMismatch { back: String, back_pages: usize, front_pages: usize },
    /// A back page's trim/bleed size differs from its paired front page.
    BackGeometryMismatch { back: String, page: usize },
    /// A page with neither TrimBox nor ArtBox: non-conformant for pro prepress.
    NoTrimOrArt { id: String, page: usize },
    /// A page whose boxes violate `Media ⊇ Bleed ⊇ Trim/Art`.
    ContainmentViolation { id: String, page: usize },
    /// A page or placement `/Rotate` that is not a multiple of 90.
    InvalidRotate { id: String, page: usize, rotate: i32 },
    /// A failure reported by the PDF backend.
    Backend(String),
    /// A failure reading or writing a file.
    Io(String),
}

} // verus!
