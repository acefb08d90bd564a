//! The discrete half of imposition planning: which source page lands on which surface of which
//! sheet, in which grid slot, and which job/page defects refuse the plan. The geometry of each slot
//! (cell rectangles, placement matrices, clips) is computed from this layout by the writer side.

use vstd::prelude::*;
use vstd::string::StringExecFns;
use crate::error::EngineError;
use crate::imposition::{surface_is, Spread};
use crate::types::{Duplex, FillOrder, SurfaceSide, SCHEMA_ID};

verus! {

// ------------------------------------------------------------------------------- job / page checks

/// Refuse a job whose schema is not [`SCHEMA_ID`], then one that references no sources
/// (`job_sources` declared in the job, `loaded` actually read).
pub fn check_job(schema: &String, job_sources: usize, loaded: usize) -> (r: Result<(), EngineError>)
    ensures
        schema@ != SCHEMA_ID@ ==> (r matches Err(EngineError::SchemaMismatch { expected, got })
            && expected@ == SCHEMA_ID@ && got@ == schema@),
        schema@ == SCHEMA_ID@ && (job_sources == 0 || loaded == 0) ==> r == Err::<(), EngineError>(EngineError::NoSources),
        schema@ == SCHEMA_ID@ && job_sources > 0 && loaded > 0 ==> r is Ok,
{
    let expected = String::from_str(SCHEMA_ID);
    if *schema != expected {
        return Err(EngineError::SchemaMismatch { expected, got: schema.clone() });
    }
    if job_sources == 0 || loaded == 0 {
        return Err(EngineError::NoSources);
    }
    Ok(())
}

} // verus!

verus! {

/// Refuse a source page, in this order: a page index past the
/// source's end, a page with neither TrimBox nor ArtBox (`has_trim`), a page whose boxes break
/// `Media ⊇ Bleed ⊇ Trim/Art` (`contained`), a `/Rotate` that is not a multiple of 90.
pub fn check_page(
    id: &String,
    page: usize,
    page_count: usize,
    has_trim: bool,
    contained: bool,
    rotate: i32,
) -> (r: Result<(), EngineError>)
    ensures
        page >= page_count ==> r == Err::<(), EngineError>(EngineError::EmptySource { id: *id }),
        page < page_count && !has_trim ==> r == Err::<(), EngineError>(
            EngineError::NoTrimOrArt { id: *id, page },
        ),
        page < page_count && has_trim && !contained ==> r == Err::<(), EngineError>(
            EngineError::ContainmentViolation { id: *id, page },
        ),
        page < page_count && has_trim && contained && rotate % 90 != 0 ==> r == Err::<(), EngineError>(
            EngineError::InvalidRotate { id: *id, page, rotate },
        ),
        page < page_count && has_trim && contained && rotate % 90 == 0 ==> r is Ok,
{
    if page >= page_count {
        return Err(EngineError::EmptySource { id: id.clone() });
    }
    if !has_trim {
        return Err(EngineError::NoTrimOrArt { id: id.clone(), page });
    }
    if !contained {
        return Err(EngineError::ContainmentViolation { id: id.clone(), page });
    }
    check_rotate(id, page, rotate)
}

/// Refuse a rotation that is not a multiple of 90 degrees (page `/Rotate`, manual placement).
pub fn check_rotate(id: &String, page: usize, rotate: i32) -> (r: Result<(), EngineError>)
    ensures
        rotate % 90 != 0 ==> r == Err::<(), EngineError>(EngineError::InvalidRotate { id: *id, page, rotate }),
        rotate % 90 == 0 ==> r is Ok,
{
    if rotate % 90 != 0 {
        return Err(EngineError::InvalidRotate { id: id.clone(), page, rotate });
    }
    Ok(())
}

/// Refuse an N-up rule with an empty grid, then a primary source with no pages.
pub fn check_nup(rows: u32, cols: u32, id: &String, page_count: usize) -> (r: Result<(), EngineError>)
    ensures
        (rows == 0 || cols == 0) ==> r == Err::<(), EngineError>(EngineError::EmptyGrid { rows, cols }),
        rows > 0 && cols > 0 && page_count == 0 ==> r == Err::<(), EngineError>(
            EngineError::EmptySource { id: *id },
        ),
        rows > 0 && cols > 0 && page_count > 0 ==> r is Ok,
{
    if rows == 0 || cols == 0 {
        return Err(EngineError::EmptyGrid { rows, cols });
    }
    check_nonempty(id, page_count)
}

/// Refuse a primary source with no pages.
pub fn check_nonempty(id: &String, page_count: usize) -> (r: Result<(), EngineError>)
    ensures
        page_count == 0 ==> r == Err::<(), EngineError>(EngineError::EmptySource { id: *id }),
        page_count > 0 ==> r is Ok,
{
    if page_count == 0 {
        return Err(EngineError::EmptySource { id: id.clone() });
    }
    Ok(())
}

// ------------------------------------------------------------------------------------ grid slots

/// Grid position `(row, col)` of fill slot `slot` on a `rows x cols` grid (row 0 at the top).
pub open spec fn rowcol_spec(slot: int, rows: int, cols: int, fill: FillOrder) -> (int, int) {
    let s = slot % (rows * cols);
    match fill {
        FillOrder::RowMajor => (s / cols, s % cols),
        FillOrder::ColMajor => (s % rows, s / rows),
    }
}

/// Map a fill slot to its grid position: row-major fills each row left to right, column-major each
/// column top to bottom. The slot is taken as a `u32` and wraps around the grid.
pub fn slot_to_rowcol(slot: usize, rows: u32, cols: u32, fill: FillOrder) -> (rc: (u32, u32))
    requires
        rows > 0,
        cols > 0,
        rows * cols <= u32::MAX,
    ensures
        rc.0 == rowcol_spec((#[verifier::truncate] (slot as u32)) as int, rows as int, cols as int, fill).0,
        rc.1 == rowcol_spec((#[verifier::truncate] (slot as u32)) as int, rows as int, cols as int, fill).1,
        rc.0 < rows,
        rc.1 < cols,
        fill == FillOrder::RowMajor ==> rc.0 * cols + rc.1 == ((#[verifier::truncate] (slot as u32)) as int) % (rows as int * cols as int),
        fill == FillOrder::ColMajor ==> rc.1 * rows + rc.0 == ((#[verifier::truncate] (slot as u32)) as int) % (rows as int * cols as int),
{
    let per = rows * cols;
    assert(per > 0) by (nonlinear_arith) requires per == rows * cols, rows > 0, cols > 0;
    let s = (#[verifier::truncate] (slot as u32)) % per;
    proof {
        assert(s / cols < rows && s / rows < cols) by (nonlinear_arith)
            requires s < per, per == rows * cols, rows > 0, cols > 0;
        assert((s / cols) * cols + s % cols == s && (s / rows) * rows + s % rows == s) by (nonlinear_arith)
            requires rows > 0, cols > 0;
    }
    match fill {
        FillOrder::RowMajor => (s / cols, s % cols),
        FillOrder::ColMajor => (s % rows, s / rows),
    }
}

/// Fill slots walk the grid in reading order: row-major slot `s` sits at `(r, c)` with
/// `s == r * cols + c` (each row left to right, rows top to bottom), column-major slot `s` at
/// `(r, c)` with `s == c * rows + r` (each column top to bottom, columns left to right). Slots past
/// one sheet wrap around the grid.
pub proof fn fill_order_is_reading_order(s: int, rows: int, cols: int)
    requires
        rows > 0,
        cols > 0,
        0 <= s,
    ensures
        s < rows * cols ==> rowcol_spec(s, rows, cols, FillOrder::RowMajor).0 * cols + rowcol_spec(
            s,
            rows,
            cols,
            FillOrder::RowMajor,
        ).1 == s,
        s < rows * cols ==> rowcol_spec(s, rows, cols, FillOrder::ColMajor).1 * rows + rowcol_spec(
            s,
            rows,
            cols,
            FillOrder::ColMajor,
        ).0 == s,
        s < rows * cols ==> 0 <= rowcol_spec(s, rows, cols, FillOrder::ColMajor).0 < rows
            && 0 <= rowcol_spec(s, rows, cols, FillOrder::RowMajor).1 < cols,
        rowcol_spec(s + rows * cols, rows, cols, FillOrder::RowMajor) == rowcol_spec(s, rows, cols, FillOrder::RowMajor),
        rowcol_spec(s + rows * cols, rows, cols, FillOrder::ColMajor) == rowcol_spec(s, rows, cols, FillOrder::ColMajor),
{
    let per = rows * cols;
    assert(per > 0) by (nonlinear_arith) requires per == rows * cols, rows > 0, cols > 0;
    assert((s + per) % per == s % per) by (nonlinear_arith) requires per > 0, s >= 0;
    if s < per {
        assert(s % per == s) by (nonlinear_arith) requires 0 <= s < per;
        assert((s / cols) * cols + s % cols == s && (s / rows) * rows + s % rows == s) by (nonlinear_arith)
            requires rows > 0, cols > 0;
        assert(0 <= s % rows < rows && 0 <= s % cols < cols) by (nonlinear_arith) requires rows > 0, cols > 0, s >= 0;
    }
}

/// Some slot of a full `rows x cols` sheet lands at grid position `(r, c)`.
pub open spec fn grid_slot_filled(rows: int, cols: int, fill: FillOrder, r: int, c: int) -> bool {
    exists|s: int| 0 <= s < rows * cols && #[trigger] rowcol_spec(s, rows, cols, fill) == (r, c)
}

/// Distinct slots of one sheet land in distinct grid positions, and every slot lies on the grid:
/// the fill order is a bijection from `0..rows*cols` onto the grid.
pub proof fn slot_to_rowcol_is_bijective(rows: int, cols: int, fill: FillOrder)
    requires
        rows > 0,
        cols > 0,
    ensures
        forall|s: int|
            0 <= s < rows * cols ==> {
                let rc = #[trigger] rowcol_spec(s, rows, cols, fill);
                0 <= rc.0 < rows && 0 <= rc.1 < cols
            },
        forall|s1: int, s2: int|
            0 <= s1 < rows * cols && 0 <= s2 < rows * cols && s1 != s2
                ==> #[trigger] rowcol_spec(s1, rows, cols, fill) != #[trigger] rowcol_spec(s2, rows, cols, fill),
        forall|r: int, c: int| 0 <= r < rows && 0 <= c < cols ==> #[trigger] grid_slot_filled(rows, cols, fill, r, c),
{
    let per = rows * cols;
    assert forall|s: int| 0 <= s < per implies {
        let rc = #[trigger] rowcol_spec(s, rows, cols, fill);
        0 <= rc.0 < rows && 0 <= rc.1 < cols
    } by {
        assert(s % per == s) by (nonlinear_arith) requires 0 <= s < per;
        assert(0 <= s / cols < rows && 0 <= s / rows < cols && 0 <= s % cols < cols && 0 <= s % rows < rows)
            by (nonlinear_arith) requires 0 <= s < per, per == rows * cols, rows > 0, cols > 0;
    }
    assert forall|s1: int, s2: int| 0 <= s1 < per && 0 <= s2 < per && s1 != s2
        implies #[trigger] rowcol_spec(s1, rows, cols, fill) != #[trigger] rowcol_spec(s2, rows, cols, fill) by {
        assert(s1 % per == s1 && s2 % per == s2) by (nonlinear_arith) requires 0 <= s1 < per, 0 <= s2 < per;
        match fill {
            FillOrder::RowMajor => {
                assert(s1 / cols != s2 / cols || s1 % cols != s2 % cols) by (nonlinear_arith)
                    requires s1 != s2, cols > 0;
            }
            FillOrder::ColMajor => {
                assert(s1 % rows != s2 % rows || s1 / rows != s2 / rows) by (nonlinear_arith)
                    requires s1 != s2, rows > 0;
            }
        }
    }
    assert forall|r: int, c: int| 0 <= r < rows && 0 <= c < cols implies #[trigger] grid_slot_filled(rows, cols, fill, r, c) by {
        match fill {
            FillOrder::RowMajor => {
                let s = r * cols + c;
                assert(0 <= s < per && s % per == s && s / cols == r && s % cols == c) by (nonlinear_arith)
                    requires s == r * cols + c, 0 <= r < rows, 0 <= c < cols, per == rows * cols;
                assert(rowcol_spec(s, rows, cols, fill) == (r, c));
            }
            FillOrder::ColMajor => {
                let s = c * rows + r;
                assert(0 <= s < per && s % per == s && s / rows == c && s % rows == r) by (nonlinear_arith)
                    requires s == c * rows + r, 0 <= r < rows, 0 <= c < cols, per == rows * cols;
                assert(rowcol_spec(s, rows, cols, fill) == (r, c));
            }
        }
    }
}

} // verus!

verus! {

// ------------------------------------------------------------------------------ layout skeleton

/// One placed source page on a surface: its 0-based page index and the grid slot it occupies.
#[derive(Clone, Copy, Debug, PartialEq, Eq, Structural)]
pub struct Slot {
    pub page: usize,
    pub row: usize,
    pub col: usize,
}

/// One side of a sheet and the slots placed on it, in placement order.
#[derive(Clone, Debug)]
pub struct SurfacePlan {
    pub side: SurfaceSide,
    pub slots: Vec<Slot>,
}

/// One output sheet: one or two surfaces (front, then back).
#[derive(Clone, Debug)]
pub struct SheetPlan {
    pub surfaces: Vec<SurfacePlan>,
}

/// Number of sheets an N-up job of `pages` pages fills at `per` pages per sheet.
pub open spec fn nup_sheet_count(pages: int, per: int) -> int {
    (pages + per - 1) / per
}

/// Pages placed on sheet `s` of an N-up job.
pub open spec fn nup_sheet_len(pages: int, per: int, s: int) -> int {
    if pages - s * per < per { pages - s * per } else { per }
}

/// The N-up slot list of sheet `s`: page `s*per + k` in fill slot `k`.
pub open spec fn nup_slots_ok(slots: Seq<Slot>, pages: int, rows: int, cols: int, fill: FillOrder, s: int) -> bool {
    let per = rows * cols;
    &&& slots.len() == nup_sheet_len(pages, per, s)
    &&& forall|k: int| 0 <= k < slots.len() ==> {
        let rc = rowcol_spec(k, rows, cols, fill);
        &&& (#[trigger] slots[k]).page == s * per + k
        &&& slots[k].row == rc.0
        &&& slots[k].col == rc.1
    }
}

/// N-up layout: pages fill each sheet's `rows x cols` grid in `fill` order, a new sheet starting
/// when the grid is full; with a duplex back, each sheet also gets a back surface whose slots pair
/// 1:1 with the front's (the back page at the same index, its cell placed by the work style).
pub fn nup_layout(page_count: usize, rows: u32, cols: u32, fill: FillOrder, with_back: bool) -> (out: Vec<SheetPlan>)
    requires
        rows > 0,
        cols > 0,
        rows * cols <= u32::MAX,
    ensures
        out.len() == nup_sheet_count(page_count as int, rows * cols),
        forall|s: int| 0 <= s < out.len() ==> {
            let sh = #[trigger] out@[s];
            &&& sh.surfaces.len() == if with_back { 2int } else { 1int }
            &&& sh.surfaces@[0].side == SurfaceSide::Front
            &&& nup_slots_ok(sh.surfaces@[0].slots@, page_count as int, rows as int, cols as int, fill, s)
            &&& with_back ==> sh.surfaces@[1].side == SurfaceSide::Back
                && sh.surfaces@[1].slots@ == sh.surfaces@[0].slots@
        },
{
    let per = (rows * cols) as usize;
    assert(per > 0) by (nonlinear_arith) requires per == rows * cols, rows > 0, cols > 0;
    let mut out: Vec<SheetPlan> = Vec::new();
    let mut start: usize = 0;
    proof {
        assert(0 * per == 0);
        if page_count == 0 {
            assert((0 + per - 1) / (per as int) == 0) by (nonlinear_arith) requires per > 0;
        } else {
            assert((page_count + per - 1) / (per as int) > 0) by (nonlinear_arith) requires per > 0, page_count > 0;
        }
    }
    while start < page_count
        invariant
            per == rows * cols,
            per > 0,
            rows * cols <= u32::MAX,
            rows > 0,
            cols > 0,
            start <= page_count,
            start < page_count ==> start == out.len() * per,
            start == page_count ==> out.len() == nup_sheet_count(page_count as int, per as int),
            start < page_count ==> out.len() < nup_sheet_count(page_count as int, per as int),
            forall|s: int| 0 <= s < out.len() ==> {
                let sh = #[trigger] out@[s];
                &&& sh.surfaces.len() == if with_back { 2int } else { 1int }
                &&& sh.surfaces@[0].side == SurfaceSide::Front
                &&& nup_slots_ok(sh.surfaces@[0].slots@, page_count as int, rows as int, cols as int, fill, s)
                &&& with_back ==> sh.surfaces@[1].side == SurfaceSide::Back
                    && sh.surfaces@[1].slots@ == sh.surfaces@[0].slots@
            },
        decreases page_count - start,
    {
        let remaining = page_count - start;
        let count = if remaining < per { remaining } else { per };
        let ghost s = out.len() as int;
        let mut slots: Vec<Slot> = Vec::new();
        let mut k: usize = 0;
        while k < count
            invariant
                per == rows * cols,
                per > 0,
                rows * cols <= u32::MAX,
                rows > 0,
                cols > 0,
                count <= per,
                start == s * per,
                start + count <= page_count,
                k <= count,
                slots.len() == k,
                forall|t: int| 0 <= t < slots.len() ==> {
                    let rc = rowcol_spec(t, rows as int, cols as int, fill);
                    &&& (#[trigger] slots@[t]).page == s * per + t
                    &&& slots@[t].row == rc.0
                    &&& slots@[t].col == rc.1
                },
            decreases count - k,
        {
            let (r, c) = slot_to_rowcol(k, rows, cols, fill);
            assert((#[verifier::truncate] (k as u32)) == k) by {
                assert(k < per && per <= u32::MAX);
            }
            slots.push(Slot { page: start + k, row: r as usize, col: c as usize });
            k = k + 1;
        }
        let mut surfaces: Vec<SurfacePlan> = Vec::new();
        if with_back {
            let back = slots.clone();
            surfaces.push(SurfacePlan { side: SurfaceSide::Front, slots });
            surfaces.push(SurfacePlan { side: SurfaceSide::Back, slots: back });
        } else {
            surfaces.push(SurfacePlan { side: SurfaceSide::Front, slots });
        }
        out.push(SheetPlan { surfaces });
        proof {
            assert(count == nup_sheet_len(page_count as int, per as int, s));
            assert((page_count + per - 1) / (per as int) > s) by (nonlinear_arith)
                requires start == s * per, start < page_count, per > 0;
            if start + count >= page_count {
                assert((page_count + per - 1) / (per as int) == s + 1) by (nonlinear_arith)
                    requires start == s * per, start < page_count, start + per >= page_count, per > 0;
            } else {
                assert((page_count + per - 1) / (per as int) > s + 1) by (nonlinear_arith)
                    requires start == s * per, start + per < page_count, per > 0;
                assert(start + count == (s + 1) * per) by (nonlinear_arith)
                    requires start == s * per, count == per;
            }
        }
        start = start + count;
    }
    out
}

} // verus!

verus! {

/// The sheet an N-up job places page `p` on.
pub open spec fn nup_sheet_of(p: int, per: int) -> int {
    p / per
}

/// Every page of an N-up job is placed exactly once: page `p` sits on sheet `p / per` in fill slot
/// `p - (p / per) * per`, and distinct (sheet, slot) pairs hold distinct pages.
pub proof fn nup_layout_places_each_page_once(pages: int, per: int)
    requires
        pages >= 0,
        per > 0,
    ensures
        forall|p: int|
            0 <= p < pages ==> {
                let s = #[trigger] nup_sheet_of(p, per);
                &&& 0 <= s < nup_sheet_count(pages, per)
                &&& 0 <= p - s * per < nup_sheet_len(pages, per, s)
            },
        forall|s: int, k: int|
            0 <= s < nup_sheet_count(pages, per) && 0 <= k < nup_sheet_len(pages, per, s)
                ==> 0 <= #[trigger] (s * per + k) < pages,
        forall|s1: int, k1: int, s2: int, k2: int|
            0 <= k1 < per && 0 <= k2 < per && (s1 != s2 || k1 != k2)
                ==> #[trigger] (s1 * per + k1) != #[trigger] (s2 * per + k2),
{
    assert forall|p: int| 0 <= p < pages implies {
        let s = #[trigger] nup_sheet_of(p, per);
        &&& 0 <= s < nup_sheet_count(pages, per)
        &&& 0 <= p - s * per < nup_sheet_len(pages, per, s)
    } by {
        let s = p / per;
        assert(0 <= s < (pages + per - 1) / per && 0 <= p - s * per < per && p - s * per < pages - s * per)
            by (nonlinear_arith) requires 0 <= p < pages, per > 0, s == p / per;
    }
    assert forall|s: int, k: int| 0 <= s < nup_sheet_count(pages, per) && 0 <= k < nup_sheet_len(pages, per, s)
        implies 0 <= #[trigger] (s * per + k) < pages by {
        assert(0 <= s * per) by (nonlinear_arith) requires s >= 0, per > 0;
    }
    assert forall|s1: int, k1: int, s2: int, k2: int| 0 <= k1 < per && 0 <= k2 < per && (s1 != s2 || k1 != k2)
        implies #[trigger] (s1 * per + k1) != #[trigger] (s2 * per + k2) by {
        if s1 != s2 {
            assert(s1 * per + k1 != s2 * per + k2) by (nonlinear_arith)
                requires s1 != s2, 0 <= k1 < per, 0 <= k2 < per;
        }
    }
}

// -------------------------------------------------------------------------------------- booklets

/// The slots of one booklet surface: the spread's left page in column 0, its right page in column
/// 1, each kept only when it is a real page (`1..=pages`); blank pads are dropped.
pub open spec fn spread_slots(spread: Spread, pages: int) -> Seq<Slot> {
    let l = spread[0] as int;
    let r = spread[1] as int;
    let left = if 1 <= l <= pages { seq![Slot { page: (l - 1) as usize, row: 0, col: 0 }] } else { Seq::empty() };
    let right = if 1 <= r <= pages { seq![Slot { page: (r - 1) as usize, row: 0, col: 1 }] } else { Seq::empty() };
    left + right
}

/// True when `sf` is the booklet surface built from the ordered spread `e`.
pub open spec fn booklet_surface_ok(sf: SurfacePlan, e: (SurfaceSide, Spread), pages: int) -> bool {
    sf.side == e.0 && sf.slots@ == spread_slots(e.1, pages)
}

/// Booklet layout: each ordered spread becomes one 1x2 surface (blank pads dropped), and the
/// surfaces, already in print order front, back, front, back, ..., pair up into sheets.
pub fn booklet_layout(order: &Vec<(SurfaceSide, Spread)>, page_count: usize) -> (out: Vec<SheetPlan>)
    ensures
        out.len() == (order.len() + 1) / 2,
        forall|t: int| 0 <= t < out.len() ==> {
            let sh = #[trigger] out@[t];
            &&& sh.surfaces.len() == if 2 * t + 1 < order.len() { 2int } else { 1int }
            &&& forall|j: int| 0 <= j < sh.surfaces.len() ==>
                booklet_surface_ok(#[trigger] sh.surfaces@[j], order@[2 * t + j], page_count as int)
        },
{
    let mut out: Vec<SheetPlan> = Vec::new();
    let mut i: usize = 0;
    while i < order.len()
        invariant
            i <= order.len(),
            i < order.len() ==> i % 2 == 0 && out.len() == i / 2,
            i == order.len() ==> out.len() == (order.len() + 1) / 2,
            forall|t: int| 0 <= t < out.len() ==> {
                let sh = #[trigger] out@[t];
                &&& sh.surfaces.len() == if 2 * t + 1 < order.len() { 2int } else { 1int }
                &&& forall|j: int| 0 <= j < sh.surfaces.len() ==>
                    booklet_surface_ok(#[trigger] sh.surfaces@[j], order@[2 * t + j], page_count as int)
            },
        decreases order.len() - i,
    {
        let mut surfaces: Vec<SurfacePlan> = Vec::new();
        surfaces.push(booklet_surface(&order[i], page_count));
        i = i + 1;
        if i < order.len() {
            surfaces.push(booklet_surface(&order[i], page_count));
            i = i + 1;
        }
        out.push(SheetPlan { surfaces });
    }
    out
}

/// One booklet surface from one ordered spread.
fn booklet_surface(e: &(SurfaceSide, Spread), page_count: usize) -> (sf: SurfacePlan)
    ensures
        booklet_surface_ok(sf, *e, page_count as int),
{
    let mut slots: Vec<Slot> = Vec::new();
    let l = e.1[0];
    let r = e.1[1];
    if l != 0 && l <= page_count {
        slots.push(Slot { page: l - 1, row: 0, col: 0 });
    }
    if r != 0 && r <= page_count {
        slots.push(Slot { page: r - 1, row: 0, col: 1 });
    }
    assert(slots@ =~= spread_slots(e.1, page_count as int));
    SurfacePlan { side: e.0, slots }
}

/// Some slot of the booklet laid out from `order` holds page index `x`.
pub open spec fn booklet_places(order: Seq<(SurfaceSide, Spread)>, pages: int, x: int) -> bool {
    exists|k: int, j: int|
        0 <= k < order.len() && 0 <= j < spread_slots(order[k].1, pages).len() && (#[trigger] spread_slots(
            order[k].1,
            pages,
        )[j]).page == x
}

proof fn spread_slot_facts(e: Spread, n: int)
    ensures
        forall|j: int| 0 <= j < spread_slots(e, n).len() ==> {
            let sl = #[trigger] spread_slots(e, n)[j];
            &&& (sl.col == 0 || sl.col == 1)
            &&& 1 <= e[sl.col as int] as int <= n
            &&& sl.page as int == e[sl.col as int] as int - 1
        },
        forall|j1: int, j2: int|
            0 <= j1 < spread_slots(e, n).len() && 0 <= j2 < spread_slots(e, n).len() && j1 != j2
                ==> #[trigger] spread_slots(e, n)[j1].col != #[trigger] spread_slots(e, n)[j2].col,
        forall|c: int|
            0 <= c < 2 && 1 <= #[trigger] e[c] as int <= n ==> exists|j: int|
                0 <= j < spread_slots(e, n).len() && #[trigger] spread_slots(e, n)[j].col == c,
{
    let s = spread_slots(e, n);
    let l = e[0] as int;
    let r = e[1] as int;
    assert forall|c: int| 0 <= c < 2 && 1 <= #[trigger] e[c] as int <= n implies exists|j: int|
        0 <= j < s.len() && #[trigger] s[j].col == c by {
        if c == 0 {
            assert(s[0].col == 0);
        } else if 1 <= l <= n {
            assert(s[1].col == 1);
        } else {
            assert(s[0].col == 1);
        }
    }
}

/// A booklet laid out from the spreads of a saddle-stitch order places every real page exactly
/// once: each page index below `pages` sits in exactly one slot of exactly one surface, and blank
/// pads place nothing.
pub proof fn saddle_booklet_places_each_page_once(order: Seq<(SurfaceSide, Spread)>, pages: nat)
    requires
        order.len() == crate::imposition::saddle_padded(pages) / 2,
        forall|k: int|
            0 <= k < order.len() ==> surface_is(
                #[trigger] order[k],
                crate::imposition::saddle_surface(crate::imposition::saddle_padded(pages) as int, k),
            ),
    ensures
        forall|k: int, j: int|
            0 <= k < order.len() && 0 <= j < spread_slots(order[k].1, pages as int).len() ==> (#[trigger] spread_slots(
                order[k].1,
                pages as int,
            )[j]).page < pages,
        forall|x: int| 0 <= x < pages ==> #[trigger] booklet_places(order, pages as int, x),
        forall|k1: int, j1: int, k2: int, j2: int|
            0 <= k1 < order.len() && 0 <= j1 < spread_slots(order[k1].1, pages as int).len() && 0 <= k2 < order.len()
                && 0 <= j2 < spread_slots(order[k2].1, pages as int).len() && (#[trigger] spread_slots(
                order[k1].1,
                pages as int,
            )[j1]).page == (#[trigger] spread_slots(order[k2].1, pages as int)[j2]).page ==> k1 == k2 && j1 == j2,
{
    let p = crate::imposition::saddle_padded(pages) as int;
    let n = pages as int;
    crate::imposition::saddle_order_is_permutation(pages);
    assert forall|k: int| 0 <= k < order.len() implies #[trigger] order[k].1[0] as int == crate::imposition::slot_page(
        crate::imposition::saddle_surface(p, k),
        0,
    ) && order[k].1[1] as int == crate::imposition::slot_page(crate::imposition::saddle_surface(p, k), 1) by {
        assert(surface_is(order[k], crate::imposition::saddle_surface(p, k)));
    }
    assert forall|k: int, j: int|
        0 <= k < order.len() && 0 <= j < spread_slots(order[k].1, n).len() implies (#[trigger] spread_slots(
            order[k].1,
            n,
        )[j]).page < pages by {
        spread_slot_facts(order[k].1, n);
    }
    assert forall|x: int| 0 <= x < pages implies #[trigger] booklet_places(order, n, x) by {
        let q = x + 1;
        assert(crate::imposition::saddle_prints(p, q));
        let (k, c) = choose|k: int, c: int|
            0 <= k < p / 2 && 0 <= c < 2 && #[trigger] crate::imposition::slot_page(crate::imposition::saddle_surface(p, k), c)
                == q;
        let e = order[k].1;
        assert(e[c] as int == q);
        spread_slot_facts(e, n);
        let j = choose|j: int| 0 <= j < spread_slots(e, n).len() && #[trigger] spread_slots(e, n)[j].col == c;
        assert(spread_slots(e, n)[j].page == x);
    }
    assert forall|k1: int, j1: int, k2: int, j2: int|
        0 <= k1 < order.len() && 0 <= j1 < spread_slots(order[k1].1, n).len() && 0 <= k2 < order.len() && 0 <= j2
            < spread_slots(order[k2].1, n).len() && (#[trigger] spread_slots(order[k1].1, n)[j1]).page == (#[trigger] spread_slots(
            order[k2].1,
            n,
        )[j2]).page implies k1 == k2 && j1 == j2 by {
        spread_slot_facts(order[k1].1, n);
        spread_slot_facts(order[k2].1, n);
        let c1 = spread_slots(order[k1].1, n)[j1].col as int;
        let c2 = spread_slots(order[k2].1, n)[j2].col as int;
        assert(crate::imposition::slot_page(crate::imposition::saddle_surface(p, k1), c1) == crate::imposition::slot_page(
            crate::imposition::saddle_surface(p, k2),
            c2,
        ));
    }
}

/// A perfect-bound book laid out from the spreads of its signature order places every real page
/// exactly once: each page index below `pages` sits in exactly one slot of exactly one surface, and
/// blank pads place nothing.
pub proof fn perfect_booklet_places_each_page_once(order: Seq<(SurfaceSide, Spread)>, pages: nat, sig_pages: nat)
    requires
        order.len() == crate::imposition::perfect_padded(pages, sig_pages) / 2,
        forall|e: int|
            0 <= e < order.len() ==> surface_is(
                #[trigger] order[e],
                crate::imposition::perfect_surface(crate::imposition::signature_size(sig_pages) as int, e),
            ),
    ensures
        forall|k: int, j: int|
            0 <= k < order.len() && 0 <= j < spread_slots(order[k].1, pages as int).len() ==> (#[trigger] spread_slots(
                order[k].1,
                pages as int,
            )[j]).page < pages,
        forall|x: int| 0 <= x < pages ==> #[trigger] booklet_places(order, pages as int, x),
        forall|k1: int, j1: int, k2: int, j2: int|
            0 <= k1 < order.len() && 0 <= j1 < spread_slots(order[k1].1, pages as int).len() && 0 <= k2 < order.len()
                && 0 <= j2 < spread_slots(order[k2].1, pages as int).len() && (#[trigger] spread_slots(
                order[k1].1,
                pages as int,
            )[j1]).page == (#[trigger] spread_slots(order[k2].1, pages as int)[j2]).page ==> k1 == k2 && j1 == j2,
{
    let sig = crate::imposition::signature_size(sig_pages) as int;
    let total = crate::imposition::perfect_padded(pages, sig_pages) as int;
    let n = pages as int;
    crate::imposition::perfect_bound_order_is_permutation(pages, sig_pages);
    let b: nat = if pages == 0 { 1 } else { pages };
    assert(total >= b) by (nonlinear_arith)
        requires total == (((b + sig - 1) as nat) / (sig as nat)) * sig, sig >= 4, b >= 1;
    assert forall|k: int| 0 <= k < order.len() implies #[trigger] order[k].1[0] as int == crate::imposition::slot_page(
        crate::imposition::perfect_surface(sig, k),
        0,
    ) && order[k].1[1] as int == crate::imposition::slot_page(crate::imposition::perfect_surface(sig, k), 1) by {
        assert(surface_is(order[k], crate::imposition::perfect_surface(sig, k)));
    }
    assert forall|k: int, j: int|
        0 <= k < order.len() && 0 <= j < spread_slots(order[k].1, n).len() implies (#[trigger] spread_slots(
            order[k].1,
            n,
        )[j]).page < pages by {
        spread_slot_facts(order[k].1, n);
    }
    assert forall|x: int| 0 <= x < pages implies #[trigger] booklet_places(order, n, x) by {
        let q = x + 1;
        assert(crate::imposition::perfect_prints(sig, total, q));
        let (k, c) = choose|k: int, c: int|
            0 <= k < total / 2 && 0 <= c < 2 && #[trigger] crate::imposition::slot_page(crate::imposition::perfect_surface(sig, k), c)
                == q;
        let e = order[k].1;
        assert(e[c] as int == q);
        spread_slot_facts(e, n);
        let j = choose|j: int| 0 <= j < spread_slots(e, n).len() && #[trigger] spread_slots(e, n)[j].col == c;
        assert(spread_slots(e, n)[j].page == x);
    }
    assert forall|k1: int, j1: int, k2: int, j2: int|
        0 <= k1 < order.len() && 0 <= j1 < spread_slots(order[k1].1, n).len() && 0 <= k2 < order.len() && 0 <= j2
            < spread_slots(order[k2].1, n).len() && (#[trigger] spread_slots(order[k1].1, n)[j1]).page == (#[trigger] spread_slots(
            order[k2].1,
            n,
        )[j2]).page implies k1 == k2 && j1 == j2 by {
        spread_slot_facts(order[k1].1, n);
        spread_slot_facts(order[k2].1, n);
        let c1 = spread_slots(order[k1].1, n)[j1].col as int;
        let c2 = spread_slots(order[k2].1, n)[j2].col as int;
        assert(crate::imposition::slot_page(crate::imposition::perfect_surface(sig, k1), c1) == crate::imposition::slot_page(
            crate::imposition::perfect_surface(sig, k2),
            c2,
        ));
    }
}

/// A booklet back surface is turned 180 degrees when the job prints short-edge duplex.
pub fn booklet_flip(side: SurfaceSide, duplex: Duplex) -> (flip: bool)
    ensures
        flip == (side == SurfaceSide::Back && duplex == Duplex::ShortEdge),
{
    side == SurfaceSide::Back && duplex == Duplex::ShortEdge
}

} // verus!

verus! {

// -------------------------------------------------------------------------------- step & repeat

/// The slots of a step-and-repeat gang of one page: `rows x cols` copies, row 0 at the top, each
/// row filled left to right.
pub fn gang_slots(page: usize, rows: usize, cols: usize) -> (slots: Vec<Slot>)
    requires
        rows * cols <= usize::MAX,
    ensures
        slots.len() == rows * cols,
        forall|r: int, c: int|
            0 <= r < rows && 0 <= c < cols ==> #[trigger] slots@[r * cols + c] == (Slot {
                page,
                row: r as usize,
                col: c as usize,
            }),
{
    let mut slots: Vec<Slot> = Vec::new();
    let mut r: usize = 0;
    while r < rows
        invariant
            rows * cols <= usize::MAX,
            r <= rows,
            slots.len() == r * cols,
            forall|rr: int, c: int|
                0 <= rr < r && 0 <= c < cols ==> #[trigger] slots@[rr * cols + c] == (Slot {
                    page,
                    row: rr as usize,
                    col: c as usize,
                }),
        decreases rows - r,
    {
        let mut c: usize = 0;
        while c < cols
            invariant
                rows * cols <= usize::MAX,
                r < rows,
                c <= cols,
                slots.len() == r * cols + c,
                forall|rr: int, cc: int|
                    0 <= rr < r && 0 <= cc < cols ==> #[trigger] slots@[rr * cols + cc] == (Slot {
                        page,
                        row: rr as usize,
                        col: cc as usize,
                    }),
                forall|cc: int| 0 <= cc < c ==> #[trigger] slots@[r * cols + cc] == (Slot {
                    page,
                    row: r,
                    col: cc as usize,
                }),
            decreases cols - c,
        {
            proof {
                assert(r * cols + c < rows * cols) by (nonlinear_arith) requires r < rows, c < cols;
            }
            slots.push(Slot { page, row: r, col: c });
            c = c + 1;
            proof {
                assert forall|rr: int, cc: int| 0 <= rr < r && 0 <= cc < cols
                    implies #[trigger] slots@[rr * cols + cc] == (Slot { page, row: rr as usize, col: cc as usize }) by {
                    assert(rr * cols + cc < r * cols) by (nonlinear_arith) requires rr < r, cc < cols;
                }
            }
        }
        proof {
            assert((r + 1) * cols == r * cols + cols) by (nonlinear_arith);
        }
        r = r + 1;
    }
    slots
}

/// Which edges of gang cell `(r, c)` face a neighbouring card (row 0 at the top): those are the
/// edges whose shared bleed may be cropped; the gang's outer perimeter keeps full bleed.
#[derive(Clone, Copy, Debug, PartialEq, Eq, Structural)]
pub struct Neighbours {
    pub left: bool,
    pub right: bool,
    pub below: bool,
    pub above: bool,
}

/// The neighbour-facing edges of gang cell `(r, c)` on a `rows x cols` gang.
pub fn gang_neighbours(r: usize, c: usize, rows: usize, cols: usize) -> (n: Neighbours)
    requires
        r < rows,
        c < cols,
    ensures
        n.left == (c > 0),
        n.right == (c + 1 < cols),
        n.below == (r + 1 < rows),
        n.above == (r > 0),
{
    Neighbours { left: c > 0, right: c + 1 < cols, below: r + 1 < rows, above: r > 0 }
}

} // verus!

verus! {

// ----------------------------------------------------------------------------------------- sources

/// What the planner reads of a loaded source: its id and page count.
#[derive(Clone, Debug)]
pub struct SourceSummary {
    pub id: String,
    pub page_count: usize,
}

/// The index of the first source whose id is `id`, or `UnknownSource(id)` when none is.
pub fn find_source(sources: &Vec<SourceSummary>, id: &String) -> (r: Result<usize, EngineError>)
    ensures
        match r {
            Ok(i) => i < sources.len() && sources@[i as int].id@ == id@
                && forall|j: int| 0 <= j < i ==> (#[trigger] sources@[j]).id@ != id@,
            Err(e) => e == EngineError::UnknownSource(*id)
                && forall|j: int| 0 <= j < sources.len() ==> (#[trigger] sources@[j]).id@ != id@,
        },
{
    let mut i: usize = 0;
    while i < sources.len()
        invariant
            i <= sources.len(),
            forall|j: int| 0 <= j < i ==> (#[trigger] sources@[j]).id@ != id@,
        decreases sources.len() - i,
    {
        if sources[i].id == *id {
            return Ok(i);
        }
        i = i + 1;
    }
    Err(EngineError::UnknownSource(id.clone()))
}

/// Resolve the optional duplex back source of an N-up / step-and-repeat job: it must be a declared
/// source with the same page count as the front (1:1 pairing). `Ok(None)` when no back is set.
pub fn resolve_back(sources: &Vec<SourceSummary>, back: Option<&String>, front_pages: usize) -> (r: Result<Option<usize>, EngineError>)
    ensures
        back is None ==> r == Ok::<Option<usize>, EngineError>(None),
        back matches Some(b) ==> {
            match r {
                Ok(Some(i)) => i < sources.len() && sources@[i as int].id@ == b@
                    && sources@[i as int].page_count == front_pages
                    && forall|j: int| 0 <= j < i ==> (#[trigger] sources@[j]).id@ != b@,
                Ok(None) => false,
                Err(EngineError::UnknownSource(id)) => id == *b
                    && forall|j: int| 0 <= j < sources.len() ==> (#[trigger] sources@[j]).id@ != b@,
                Err(EngineError::BackCountMismatch { back: bid, back_pages, front_pages: fp }) => exists|i: int|
                    0 <= i < sources.len() && sources@[i].id@ == b@
                    && (forall|j: int| 0 <= j < i ==> (#[trigger] sources@[j]).id@ != b@)
                    && bid == sources@[i].id && back_pages == sources@[i].page_count
                    && back_pages != front_pages && fp == front_pages,
                Err(_) => false,
            }
        },
{
    match back {
        None => Ok(None),
        Some(b) => {
            let i = find_source(sources, b)?;
            if sources[i].page_count != front_pages {
                return Err(EngineError::BackCountMismatch {
                    back: sources[i].id.clone(),
                    back_pages: sources[i].page_count,
                    front_pages,
                });
            }
            Ok(Some(i))
        },
    }
}

} // verus!
