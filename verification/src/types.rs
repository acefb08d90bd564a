//! Plain domain values of a job specification: the settings the planner branches on and the data
//! the marks carry. Geometry (point sizes, scales, tints) is not held here.

use vstd::prelude::*;

verus! {

/// The JobSpec schema identifier. Bumped on breaking schema changes.
pub const SCHEMA_ID: &'static str = "vgdi/jobspec@1";

/// One side of a printed sheet.
#[derive(Clone, Copy, Debug, PartialEq, Eq, Structural)]
pub enum SurfaceSide {
    Front,
    Back,
}

/// Cell fill order for grid schemes.
#[derive(Clone, Copy, Debug, PartialEq, Eq, Structural)]
pub enum FillOrder {
    RowMajor,
    ColMajor,
}

/// Whether placed pages show their bleed band or are clipped to the trim.
#[derive(Clone, Copy, Debug, PartialEq, Eq, Structural)]
pub enum BleedMode {
    Bleed,
    NoBleed,
}

/// Duplex registration of a booklet back side.
#[derive(Clone, Copy, Debug, PartialEq, Eq, Structural)]
pub enum Duplex {
    LongEdge,
    ShortEdge,
}

/// How front and back of a press sheet are printed and the sheet flipped between them.
#[derive(Clone, Copy, Debug, PartialEq, Eq, Structural)]
pub enum WorkStyle {
    Sheetwise,
    Perfector,
    WorkAndTurn,
    WorkAndTumble,
}

/// The discrete setting of a booklet rule: its duplex registration.
#[derive(Clone, Copy, Debug, PartialEq, Eq, Structural)]
pub struct Booklet {
    pub duplex: Duplex,
}

/// The value a JobSpec field marked "defaults to true" takes when omitted.
pub fn default_true() -> (r: bool)
    ensures
        r,
{
    true
}

/// The bleed mode N-up and booklet rules take when omitted: no bleed-pull.
pub fn default_no_bleed() -> (r: BleedMode)
    ensures
        r == BleedMode::NoBleed,
{
    BleedMode::NoBleed
}

/// A referenced input PDF.
#[derive(Clone, Debug)]
pub struct SourceRef {
    pub id: String,
    pub path: String,
}

/// Color preservation policy. Defaults preserve everything.
#[derive(Clone, Copy, Debug, PartialEq, Eq, Structural)]
pub struct ColorPolicy {
    pub preserve_spots: bool,
    pub preserve_overprint: bool,
}

impl Default for ColorPolicy {
    fn default() -> (r: Self)
        ensures
            r.preserve_spots,
            r.preserve_overprint,
    {
        ColorPolicy { preserve_spots: default_true(), preserve_overprint: default_true() }
    }
}

/// Output target configuration: PDF/X conformance hint and forced PDF version, both optional.
#[derive(Clone, Debug)]
pub struct OutputTarget {
    pub pdfx: Option<String>,
    pub pdf_version: Option<String>,
}

impl Default for OutputTarget {
    fn default() -> (r: Self)
        ensures
            r.pdfx is None,
            r.pdf_version is None,
    {
        OutputTarget { pdfx: None, pdf_version: None }
    }
}

/// A sheet region marks can be parked in.
#[derive(Clone, Copy, Debug, PartialEq, Eq, Structural)]
pub enum MarkRegion {
    Slug,
    Head,
    Foot,
    Left,
    Right,
}

/// Style of crop marks.
#[derive(Clone, Copy, Debug, PartialEq, Eq, Structural)]
pub enum CropStyle {
    /// Offset corner ticks (the common style).
    Classic,
    /// Lines spanning across the sheet through the trim corners.
    FullLine,
    /// Japanese/double marks: an inner pair at trim and an outer pair at bleed.
    Japanese,
}

/// Where registration targets are placed around the content.
#[derive(Clone, Copy, Debug, PartialEq, Eq, Structural)]
pub enum RegPositions {
    EdgeCenters,
    Corners,
    All,
}

/// Kind of colour control bar.
#[derive(Clone, Copy, Debug, PartialEq, Eq, Structural)]
pub enum ColorBarKind {
    ProcessSolids,
    TintRamp,
    SpotPatches,
}

/// Automatic cutter system the cut marks target.
#[derive(Clone, Copy, Debug, PartialEq, Eq, Structural)]
pub enum CutterSystem {
    Generic,
    Polar,
    Wohlenberg,
}

/// Automatic-cutter marks.
#[derive(Clone, Copy, Debug, PartialEq, Eq, Structural)]
pub struct AutocutterMarks {
    pub system: CutterSystem,
    pub barcode: bool,
    pub cut_marks: bool,
    pub omr: bool,
}

impl Default for AutocutterMarks {
    fn default() -> (r: Self)
        ensures
            r.system == CutterSystem::Generic,
            r.barcode,
            r.cut_marks,
            !r.omr,
    {
        AutocutterMarks { system: CutterSystem::Generic, barcode: true, cut_marks: true, omr: false }
    }
}

/// Where the slug line sits on the sheet.
#[derive(Clone, Copy, Debug, PartialEq, Eq, Structural)]
pub enum SlugPosition {
    BottomLeft,
    BottomCenter,
    BottomRight,
    TopLeft,
    TopCenter,
    TopRight,
}

/// Slug content tokens. `Custom` carries user-supplied literal text (data, not authored copy).
#[derive(Clone, Debug, PartialEq)]
pub enum SlugField {
    FileName,
    DateTime,
    SheetNumber,
    Surface,
    Separation,
    Operator,
    JobNumber,
    Custom(String),
}

/// Barcode symbology.
#[derive(Clone, Copy, Debug, PartialEq, Eq, Structural)]
pub enum Symbology {
    Code128,
    Qr,
    DataMatrix,
}

/// A job barcode: symbology, encoded payload (job-supplied data) and the sheet region it sits in.
#[derive(Clone, Debug)]
pub struct Barcode {
    pub symbology: Symbology,
    pub data: String,
    pub region: MarkRegion,
}

impl Default for Barcode {
    fn default() -> (r: Self)
        ensures
            r.symbology == Symbology::Code128,
            r.data@.len() == 0,
            r.region == MarkRegion::Slug,
    {
        Barcode { symbology: Symbology::Code128, data: String::new(), region: MarkRegion::Slug }
    }
}

} // verus!
