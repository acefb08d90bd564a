//! Printer-mark bookkeeping: which mark families are on, how a surface's placed pieces relate (and
//! so where cut marks go), where the gripper sits on each surface, the per-surface counters, and
//! the resolved slug line. The marks' positions are computed from these by the writer side.

use vstd::prelude::*;
use vstd::string::StringExecFns;
use crate::text::{decimal, decimal_spec, push_char};
use crate::types::{SlugField, SurfaceSide, WorkStyle};

verus! {

/// The discrete shape of the job's scheme, as the mark planner needs it.
#[derive(Clone, Copy, Debug, PartialEq, Eq, Structural)]
pub enum SchemeKind {
    NUp,
    StepRepeat,
    SaddleStitch,
    PerfectBound { signature_pages: u32 },
    Manual,
}

/// How the placed pieces on a surface relate, which decides where cut/trim marks go.
#[derive(Clone, Copy, Debug, PartialEq, Eq, Structural)]
pub enum SurfaceLayout {
    /// Independent finished pieces in a grid (n-up): each page framed on its own, marks in the
    /// gutters around it.
    Independent,
    /// One folded leaf (booklet spread): marks frame the whole leaf's outer perimeter; the inner
    /// spine is a fold, not a cut, so it gets no crop ticks.
    Folded,
    /// A tight gang of identical pieces (step & repeat): crop marks only on the gang's outer
    /// perimeter, one tick per distinct cut line, never between the cards.
    Gang,
}

/// The sheet edge that holds the press gripper on a surface; sheet-edge furniture parks just
/// inside it.
#[derive(Clone, Copy, Debug, PartialEq, Eq, Structural)]
pub enum GripperEdge {
    Bottom,
    Top,
}

/// Per-surface context resolved by the planner (1-based counters; data, not authored copy).
#[derive(Clone, Copy, Debug)]
pub struct MarkContext<'a> {
    pub file_name: &'a str,
    pub sheet_number: usize,
    pub surface: SurfaceSide,
    /// 1-based signature number for collation back-step marks (perfect binding only).
    pub signature: Option<usize>,
}

/// Which mark families a job turns on (the families that draw anything).
#[derive(Clone, Copy, Debug, PartialEq, Eq, Structural)]
pub struct MarkToggles {
    pub crop: bool,
    pub center: bool,
    pub trim_outline: bool,
    pub registration: bool,
    pub fold: bool,
    pub collation: bool,
    pub color_bar: bool,
    pub slug: bool,
    pub job_barcode: bool,
    /// A bleed treatment other than "none".
    pub bleed: bool,
}

/// True when no mark family is enabled (the planner then skips the mark pass entirely).
pub fn marks_all_off(m: &MarkToggles) -> (off: bool)
    ensures
        off == all_off_spec(*m),
        !off <==> (m.crop || m.center || m.trim_outline || m.registration || m.fold || m.collation
            || m.color_bar || m.slug || m.job_barcode || m.bleed),
{
    !m.crop && !m.center && !m.trim_outline && !m.registration && !m.fold && !m.collation && !m.color_bar
        && !m.slug && !m.job_barcode && !m.bleed
}

/// Where cut marks go for a scheme: booklets fold, step & repeat gangs, everything else is a grid
/// of independent pieces.
pub open spec fn layout_spec(kind: SchemeKind) -> SurfaceLayout {
    match kind {
        SchemeKind::SaddleStitch | SchemeKind::PerfectBound { .. } => SurfaceLayout::Folded,
        SchemeKind::StepRepeat => SurfaceLayout::Gang,
        _ => SurfaceLayout::Independent,
    }
}

/// Where cut marks go for a scheme: booklets fold, step & repeat gangs, everything else is a grid
/// of independent pieces.
pub fn surface_layout_for(kind: SchemeKind) -> (l: SurfaceLayout)
    ensures
        l == layout_spec(kind),
{
    match kind {
        SchemeKind::SaddleStitch | SchemeKind::PerfectBound { .. } => SurfaceLayout::Folded,
        SchemeKind::StepRepeat => SurfaceLayout::Gang,
        _ => SurfaceLayout::Independent,
    }
}

/// Sheets per gathered signature, for collation numbering: each perfect-bound signature of
/// `signature_pages` pages (at least 4) spans `ceil(pages / 4)` duplex sheets. Other schemes have
/// nothing to collate.
pub open spec fn per_signature_spec(kind: SchemeKind) -> Option<int> {
    match kind {
        SchemeKind::PerfectBound { signature_pages } => Some(
            ((if signature_pages < 4 { 4 } else { signature_pages as int }) + 3) / 4,
        ),
        _ => None,
    }
}

/// Sheets per gathered signature (see [`per_signature_spec`]).
pub fn sheets_per_signature(kind: SchemeKind) -> (n: Option<usize>)
    ensures
        match per_signature_spec(kind) {
            Some(v) => n matches Some(m) && m == v,
            None => n is None,
        },
{
    match kind {
        SchemeKind::PerfectBound { signature_pages } => {
            let sig: usize = if signature_pages < 4 { 4 } else { signature_pages as usize };
            Some(sig / 4 + if sig % 4 == 0 { 0 } else { 1 })
        },
        _ => None,
    }
}

/// An optional count as an optional integer.
pub open spec fn opt_int(n: Option<usize>) -> Option<int> {
    match n {
        Some(v) => Some(v as int),
        None => None,
    }
}

/// The 1-based signature a 0-based sheet belongs to, given the sheets per signature (a count of
/// zero counts as one).
pub open spec fn signature_spec(per_signature: Option<int>, sheet_index: int) -> Option<int> {
    match per_signature {
        Some(n) => Some(sheet_index / (if n <= 0 { 1 } else { n }) + 1),
        None => None,
    }
}

/// The 1-based signature a 0-based sheet belongs to (see [`signature_spec`]).
pub fn signature_of_sheet(per_signature: Option<usize>, sheet_index: usize) -> (sig: Option<usize>)
    requires
        sheet_index < usize::MAX,
    ensures
        match signature_spec(opt_int(per_signature), sheet_index as int) {
            Some(v) => sig matches Some(m) && m == v,
            None => sig is None,
        },
{
    match per_signature {
        Some(n) => {
            let n1: usize = if n == 0 { 1 } else { n };
            proof {
                assert(sheet_index / n1 < usize::MAX) by (nonlinear_arith)
                    requires n1 >= 1, sheet_index < usize::MAX;
            }
            Some(sheet_index / n1 + 1)
        },
        None => None,
    }
}

/// Collation numbering of a perfect-bound job: every signature spans at least one sheet, the
/// 1-based signature number of consecutive sheets stays the same or steps up by one, and sheet `s`
/// belongs to signature `g` exactly when `(g - 1) * n <= s < g * n` for the `n` sheets per
/// signature.
pub proof fn signatures_step_by_sheet(kind: SchemeKind, s: int)
    requires
        per_signature_spec(kind) is Some,
        s >= 0,
    ensures
        ({
            let n = per_signature_spec(kind)->0;
            let g = signature_spec(Some(n), s)->0;
            let next = signature_spec(Some(n), s + 1)->0;
            &&& n >= 1
            &&& g >= 1
            &&& next == g || next == g + 1
            &&& (g - 1) * n <= s < g * n
        }),
{
    let n = per_signature_spec(kind)->0;
    assert(n >= 1);
    let g = s / n + 1;
    assert((g - 1) * n <= s < g * n) by (nonlinear_arith)
        requires g == s / n + 1, n >= 1, s >= 0;
    assert((s + 1) / n == s / n || (s + 1) / n == s / n + 1) by (nonlinear_arith)
        requires n >= 1, s >= 0;
}

/// A perfect-bound signature of `p` pages (at least 4) spans the fewest duplex sheets that hold
/// them, four pages to a sheet; other schemes have no gathered signatures.
pub proof fn signature_sheets_hold_its_pages(kind: SchemeKind)
    ensures
        kind matches SchemeKind::PerfectBound { signature_pages } ==> ({
            let p = if signature_pages < 4 { 4 } else { signature_pages as int };
            let n = per_signature_spec(kind)->0;
            per_signature_spec(kind) is Some && 4 * n >= p && 4 * (n - 1) < p
        }),
        !(kind is PerfectBound) ==> per_signature_spec(kind) is None,
{
}

/// Perfector images the back as the front rotated 180 degrees, so back content turns 180 degrees
/// as well (a rotation, never a mirror); turn and tumble keep back content upright.
pub fn work_style_content_flip(ws: WorkStyle) -> (flip: bool)
    ensures
        flip == (ws == WorkStyle::Perfector),
{
    match ws {
        WorkStyle::Perfector => true,
        _ => false,
    }
}

/// The sheet-space reflections that carry a front cell to its paired back cell: about the vertical
/// centreline (`x`), about the horizontal centreline (`y`), or both (a 180-degree turn). Sheetwise
/// imposes the back on its own grid at the same positions.
#[derive(Clone, Copy, Debug, PartialEq, Eq, Structural)]
pub struct Reflection {
    pub x: bool,
    pub y: bool,
}

/// The position transform of a work style: work-and-turn reflects about the vertical
/// centreline, work-and-tumble about the horizontal one, perfector both, sheetwise neither.
pub fn work_style_reflection(ws: WorkStyle) -> (r: Reflection)
    ensures
        r.x == (ws == WorkStyle::WorkAndTurn || ws == WorkStyle::Perfector),
        r.y == (ws == WorkStyle::WorkAndTumble || ws == WorkStyle::Perfector),
{
    match ws {
        WorkStyle::Sheetwise => Reflection { x: false, y: false },
        WorkStyle::WorkAndTurn => Reflection { x: true, y: false },
        WorkStyle::WorkAndTumble => Reflection { x: false, y: true },
        WorkStyle::Perfector => Reflection { x: true, y: true },
    }
}

/// The gripper edge of a surface. A work style drives a back surface only on the gang and N-up
/// paths; there tumble and perfector move the gripper to the opposite (top) edge of the back.
/// Every other surface keeps the gripper at the bottom.
pub open spec fn gripper_spec(kind: SchemeKind, ws: WorkStyle, side: SurfaceSide) -> GripperEdge {
    if (kind == SchemeKind::NUp || kind == SchemeKind::StepRepeat) && side == SurfaceSide::Back && (ws
        == WorkStyle::WorkAndTumble || ws == WorkStyle::Perfector) {
        GripperEdge::Top
    } else {
        GripperEdge::Bottom
    }
}

/// The gripper edge of a surface (see [`gripper_spec`]).
pub fn gripper_edge_for(kind: SchemeKind, ws: WorkStyle, side: SurfaceSide) -> (g: GripperEdge)
    ensures
        g == gripper_spec(kind, ws, side),
        g == GripperEdge::Top <==> (side == SurfaceSide::Back && (kind == SchemeKind::NUp || kind
            == SchemeKind::StepRepeat) && (ws == WorkStyle::WorkAndTumble || ws == WorkStyle::Perfector)),
{
    let drives = match kind {
        SchemeKind::NUp | SchemeKind::StepRepeat => true,
        _ => false,
    };
    let moves = match ws {
        WorkStyle::WorkAndTumble | WorkStyle::Perfector => true,
        _ => false,
    };
    let back = match side {
        SurfaceSide::Back => true,
        SurfaceSide::Front => false,
    };
    if drives && back && moves {
        GripperEdge::Top
    } else {
        GripperEdge::Bottom
    }
}


/// True when no mark family of `m` is enabled.
pub open spec fn all_off_spec(m: MarkToggles) -> bool {
    !m.crop && !m.center && !m.trim_outline && !m.registration && !m.fold && !m.collation && !m.color_bar
        && !m.slug && !m.job_barcode && !m.bleed
}

/// The mark pass is skipped only when nothing would be drawn: turning any single mark family on
/// (crop, centre, trim outline, registration, fold, collation, colour bar, slug, job barcode or
/// bleed treatment) makes the pass run, and with every family off it is skipped.
pub proof fn mark_pass_runs_iff_some_family_on(m: MarkToggles)
    ensures
        m.crop ==> !all_off_spec(m),
        m.center ==> !all_off_spec(m),
        m.trim_outline ==> !all_off_spec(m),
        m.registration ==> !all_off_spec(m),
        m.fold ==> !all_off_spec(m),
        m.collation ==> !all_off_spec(m),
        m.color_bar ==> !all_off_spec(m),
        m.slug ==> !all_off_spec(m),
        m.job_barcode ==> !all_off_spec(m),
        m.bleed ==> !all_off_spec(m),
        (!m.crop && !m.center && !m.trim_outline && !m.registration && !m.fold && !m.collation
            && !m.color_bar && !m.slug && !m.job_barcode && !m.bleed) ==> all_off_spec(m),
{
}

/// The gripper leaves the bottom edge only when the sheet is turned head to tail between its
/// sides: on the back surface of an N-up or step-and-repeat job printed work-and-tumble or
/// perfector it sits at the top. Sheetwise and work-and-turn sheets, front surfaces, and the
/// booklet and manual schemes keep it at the bottom.
pub proof fn gripper_moves_only_on_tumbled_backs(kind: SchemeKind, ws: WorkStyle, side: SurfaceSide)
    ensures
        (ws == WorkStyle::Sheetwise || ws == WorkStyle::WorkAndTurn) ==> gripper_spec(kind, ws, side)
            == GripperEdge::Bottom,
        side == SurfaceSide::Front ==> gripper_spec(kind, ws, side) == GripperEdge::Bottom,
        !(kind == SchemeKind::NUp || kind == SchemeKind::StepRepeat) ==> gripper_spec(kind, ws, side)
            == GripperEdge::Bottom,
        (kind == SchemeKind::NUp || kind == SchemeKind::StepRepeat) && side == SurfaceSide::Back && (ws
            == WorkStyle::WorkAndTumble || ws == WorkStyle::Perfector) ==> gripper_spec(kind, ws, side)
            == GripperEdge::Top,
{
}

/// What the mark pass fixes for one surface before any geometry: its 1-based sheet number, its
/// side, its collation signature, its gripper edge and its cut-mark layout.
#[derive(Clone, Copy, Debug, PartialEq, Eq, Structural)]
pub struct SurfaceMarkSetup {
    pub sheet_number: usize,
    pub side: SurfaceSide,
    pub signature: Option<usize>,
    pub gripper: GripperEdge,
    pub layout: SurfaceLayout,
}

/// `x` is the setup of the `side` surface of 0-based sheet `sheet_index` of a `kind` job printed
/// in work style `ws`.
pub open spec fn setup_ok(x: SurfaceMarkSetup, kind: SchemeKind, ws: WorkStyle, sheet_index: int, side: SurfaceSide) -> bool {
    &&& x.sheet_number == sheet_index + 1
    &&& x.side == side
    &&& opt_int(x.signature) == signature_spec(per_signature_spec(kind), sheet_index)
    &&& x.gripper == gripper_spec(kind, ws, side)
    &&& x.layout == layout_spec(kind)
}

/// The mark pass's per-surface decisions for a whole plan, sheet by sheet and surface by surface
/// (`sides[s]` lists the sides of sheet `s`'s surfaces). `None` when every mark family is off:
/// the pass is then skipped and no surface gets marks.
pub fn mark_surfaces(kind: SchemeKind, ws: WorkStyle, toggles: &MarkToggles, sides: &Vec<Vec<SurfaceSide>>) -> (out: Option<Vec<Vec<SurfaceMarkSetup>>>)
    ensures
        all_off_spec(*toggles) <==> out is None,
        out is Some <==> (toggles.crop || toggles.center || toggles.trim_outline || toggles.registration
            || toggles.fold || toggles.collation || toggles.color_bar || toggles.slug || toggles.job_barcode
            || toggles.bleed),
        out matches Some(v) ==> {
            &&& v.len() == sides.len()
            &&& forall|s: int| 0 <= s < v.len() ==> (#[trigger] v@[s])@.len() == sides@[s]@.len()
            &&& forall|s: int, k: int|
                0 <= s < v.len() && 0 <= k < v@[s]@.len() ==> setup_ok(#[trigger] v@[s]@[k], kind, ws, s, sides@[s]@[k])
            &&& forall|s: int, k: int|
                0 <= s < v.len() && 0 <= k < v@[s]@.len() ==> {
                    let x = #[trigger] v@[s]@[k];
                    &&& x.sheet_number == s + 1
                    &&& x.side == sides@[s]@[k]
                    &&& (x.gripper == GripperEdge::Top <==> (x.side == SurfaceSide::Back && (kind == SchemeKind::NUp
                        || kind == SchemeKind::StepRepeat) && (ws == WorkStyle::WorkAndTumble || ws
                        == WorkStyle::Perfector)))
                    &&& (x.signature is Some <==> kind is PerfectBound)
                }
        },
{
    if marks_all_off(toggles) {
        return None;
    }
    let layout = surface_layout_for(kind);
    let per_sig = sheets_per_signature(kind);
    let mut out: Vec<Vec<SurfaceMarkSetup>> = Vec::new();
    let mut s: usize = 0;
    while s < sides.len()
        invariant
            s <= sides.len(),
            out.len() == s,
            layout == layout_spec(kind),
            opt_int(per_sig) == per_signature_spec(kind),
            forall|t: int| 0 <= t < s ==> (#[trigger] out@[t])@.len() == sides@[t]@.len(),
            forall|t: int, k: int|
                0 <= t < s && 0 <= k < out@[t]@.len() ==> setup_ok(#[trigger] out@[t]@[k], kind, ws, t, sides@[t]@[k]),
        decreases sides.len() - s,
    {
        let signature = signature_of_sheet(per_sig, s);
        let row = &sides[s];
        let mut setups: Vec<SurfaceMarkSetup> = Vec::new();
        let mut k: usize = 0;
        while k < row.len()
            invariant
                s < sides.len(),
                *row == sides@[s as int],
                k <= row.len(),
                setups.len() == k,
                layout == layout_spec(kind),
                opt_int(signature) == signature_spec(per_signature_spec(kind), s as int),
                forall|j: int| 0 <= j < k ==> setup_ok(#[trigger] setups@[j], kind, ws, s as int, row@[j]),
            decreases row.len() - k,
        {
            let side = row[k];
            setups.push(SurfaceMarkSetup {
                sheet_number: s + 1,
                side,
                signature,
                gripper: gripper_edge_for(kind, ws, side),
                layout,
            });
            k = k + 1;
        }
        out.push(setups);
        s = s + 1;
    }
    Some(out)
}

} // verus!

verus! {

// ------------------------------------------------------------------------------------------- slug

/// The slug token for a surface side.
pub open spec fn surface_name(side: SurfaceSide) -> Seq<char> {
    match side {
        SurfaceSide::Front => seq!['f', 'r', 'o', 'n', 't'],
        SurfaceSide::Back => seq!['b', 'a', 'c', 'k'],
    }
}

/// What a slug field resolves to. Only fields with a concrete, deterministic data source resolve
/// (file name, sheet number, surface, custom literal); date/time, operator, job number and
/// separation resolve to nothing (no wall clock, for determinism; no data source yet).
pub open spec fn slug_part(f: SlugField, ctx: MarkContext) -> Option<Seq<char>> {
    match f {
        SlugField::FileName => Some(ctx.file_name@),
        SlugField::SheetNumber => Some(decimal_spec(ctx.sheet_number as nat)),
        SlugField::Surface => Some(surface_name(ctx.surface)),
        SlugField::Custom(s) => Some(s@),
        _ => None,
    }
}

/// The non-empty resolved parts of `fields`, in order.
pub open spec fn slug_parts(fields: Seq<SlugField>, ctx: MarkContext) -> Seq<Seq<char>>
    decreases fields.len(),
{
    if fields.len() == 0 {
        Seq::empty()
    } else {
        let rest = slug_parts(fields.drop_last(), ctx);
        match slug_part(fields.last(), ctx) {
            Some(p) => if p.len() > 0 { rest.push(p) } else { rest },
            None => rest,
        }
    }
}

/// `parts` joined with `sep` between consecutive parts.
pub open spec fn join_parts(parts: Seq<Seq<char>>, sep: Seq<char>) -> Seq<char>
    decreases parts.len(),
{
    if parts.len() == 0 {
        Seq::empty()
    } else if parts.len() == 1 {
        parts[0]
    } else {
        join_parts(parts.drop_last(), sep) + sep + parts.last()
    }
}

/// The slug field delimiter: a middle dot between spaces.
pub open spec fn slug_separator() -> Seq<char> {
    seq![' ', '\u{b7}', ' ']
}

/// The slug line: the resolved parts joined by the delimiter, or nothing when no part resolves.
pub open spec fn slug_line_spec(fields: Seq<SlugField>, ctx: MarkContext) -> Option<Seq<char>> {
    let parts = slug_parts(fields, ctx);
    if parts.len() == 0 { None } else { Some(join_parts(parts, slug_separator())) }
}

fn surface_label(side: SurfaceSide) -> (s: String)
    ensures
        s@ == surface_name(side),
{
    let mut s = String::new();
    match side {
        SurfaceSide::Front => {
            push_char(&mut s, 'f');
            push_char(&mut s, 'r');
            push_char(&mut s, 'o');
            push_char(&mut s, 'n');
            push_char(&mut s, 't');
        },
        SurfaceSide::Back => {
            push_char(&mut s, 'b');
            push_char(&mut s, 'a');
            push_char(&mut s, 'c');
            push_char(&mut s, 'k');
        },
    }
    assert(s@ =~= surface_name(side));
    s
}

fn resolve_slug_field(f: &SlugField, ctx: &MarkContext) -> (r: Option<String>)
    ensures
        match r {
            Some(s) => slug_part(*f, *ctx) == Some(s@),
            None => slug_part(*f, *ctx) is None,
        },
{
    match f {
        SlugField::FileName => Some(String::from_str(ctx.file_name)),
        SlugField::SheetNumber => Some(decimal(ctx.sheet_number)),
        SlugField::Surface => Some(surface_label(ctx.surface)),
        SlugField::Custom(s) => Some(s.clone()),
        _ => None,
    }
}

/// Resolve the slug tokens into the slug line's text: the non-empty resolved fields in order,
/// joined by " · ". `None` when nothing resolves.
pub fn slug_line(fields: &Vec<SlugField>, ctx: &MarkContext) -> (out: Option<String>)
    ensures
        match out {
            Some(s) => slug_line_spec(fields@, *ctx) == Some(s@),
            None => slug_line_spec(fields@, *ctx) is None,
        },
{
    let mut line = String::new();
    let mut count: usize = 0;
    let mut i: usize = 0;
    while i < fields.len()
        invariant
            i <= fields.len(),
            count <= i,
            count == slug_parts(fields@.take(i as int), *ctx).len(),
            line@ == join_parts(slug_parts(fields@.take(i as int), *ctx), slug_separator()),
        decreases fields.len() - i,
    {
        let ghost parts = slug_parts(fields@.take(i as int), *ctx);
        proof {
            assert(fields@.take(i + 1).drop_last() =~= fields@.take(i as int));
            assert(fields@.take(i + 1).last() == fields@[i as int]);
        }
        let part = resolve_slug_field(&fields[i], ctx);
        if let Some(p) = part {
            if !p.as_str().is_empty() {
                if count > 0 {
                    push_char(&mut line, ' ');
                    push_char(&mut line, '\u{b7}');
                    push_char(&mut line, ' ');
                }
                line.append(p.as_str());
                count = count + 1;
                proof {
                    let np = parts.push(p@);
                    assert(np.drop_last() =~= parts);
                    if parts.len() == 0 {
                        assert(line@ =~= np[0]);
                    } else {
                        assert(line@ =~= join_parts(parts, slug_separator()) + slug_separator() + p@);
                    }
                }
            }
        }
        i = i + 1;
    }
    proof {
        assert(fields@.take(fields.len() as int) =~= fields@);
    }
    if count == 0 {
        None
    } else {
        Some(line)
    }
}

} // verus!
