use vgdi::error::EngineError;
use vgdi::imposition::{perfect_bound_order, saddle_order};
use vgdi::layout::{
    booklet_flip, booklet_layout, check_job, check_nonempty, check_nup, check_page, check_rotate,
    find_source, gang_neighbours, gang_slots, nup_layout, resolve_back, slot_to_rowcol, Neighbours,
    Slot, SourceSummary,
};
use vgdi::types::{Duplex, FillOrder, SurfaceSide, SCHEMA_ID};

fn id(s: &str) -> String {
    s.to_string()
}

#[test]
fn job_with_wrong_schema_is_refused_first() {
    let r = check_job(&id("vgdi/jobspec@0"), 0, 0);
    assert_eq!(
        r,
        Err(EngineError::SchemaMismatch { expected: SCHEMA_ID.to_string(), got: id("vgdi/jobspec@0") })
    );
}

#[test]
fn job_without_sources_is_refused() {
    assert_eq!(check_job(&id(SCHEMA_ID), 0, 1), Err(EngineError::NoSources));
    assert_eq!(check_job(&id(SCHEMA_ID), 2, 0), Err(EngineError::NoSources));
    assert_eq!(check_job(&id(SCHEMA_ID), 1, 1), Ok(()));
}

#[test]
fn page_checks_run_in_order() {
    let a = id("a");
    assert_eq!(check_page(&a, 3, 3, false, false, 45), Err(EngineError::EmptySource { id: id("a") }));
    assert_eq!(check_page(&a, 0, 3, false, false, 45), Err(EngineError::NoTrimOrArt { id: id("a"), page: 0 }));
    assert_eq!(
        check_page(&a, 1, 3, true, false, 45),
        Err(EngineError::ContainmentViolation { id: id("a"), page: 1 })
    );
    assert_eq!(
        check_page(&a, 2, 3, true, true, 45),
        Err(EngineError::InvalidRotate { id: id("a"), page: 2, rotate: 45 })
    );
    assert_eq!(check_page(&a, 2, 3, true, true, -270), Ok(()));
}

#[test]
fn rotate_must_be_a_multiple_of_ninety() {
    let a = id("a");
    assert_eq!(check_rotate(&a, 0, 90), Ok(()));
    assert_eq!(check_rotate(&a, 0, 0), Ok(()));
    assert_eq!(check_rotate(&a, 0, -180), Ok(()));
    assert_eq!(check_rotate(&a, 4, 30), Err(EngineError::InvalidRotate { id: id("a"), page: 4, rotate: 30 }));
}

#[test]
fn nup_grid_and_source_checks() {
    let a = id("a");
    assert_eq!(check_nup(0, 2, &a, 4), Err(EngineError::EmptyGrid { rows: 0, cols: 2 }));
    assert_eq!(check_nup(2, 0, &a, 0), Err(EngineError::EmptyGrid { rows: 2, cols: 0 }));
    assert_eq!(check_nup(2, 2, &a, 0), Err(EngineError::EmptySource { id: id("a") }));
    assert_eq!(check_nup(2, 2, &a, 1), Ok(()));
    assert_eq!(check_nonempty(&a, 0), Err(EngineError::EmptySource { id: id("a") }));
    assert_eq!(check_nonempty(&a, 7), Ok(()));
}

#[test]
fn row_major_and_col_major_slots() {
    // 2 rows x 3 cols.
    assert_eq!(slot_to_rowcol(0, 2, 3, FillOrder::RowMajor), (0, 0));
    assert_eq!(slot_to_rowcol(4, 2, 3, FillOrder::RowMajor), (1, 1));
    assert_eq!(slot_to_rowcol(4, 2, 3, FillOrder::ColMajor), (0, 2));
    assert_eq!(slot_to_rowcol(5, 2, 3, FillOrder::ColMajor), (1, 2));
    // Slots wrap around the grid.
    assert_eq!(slot_to_rowcol(6, 2, 3, FillOrder::RowMajor), (0, 0));
}

#[test]
fn slot_fill_is_a_bijection_on_one_sheet() {
    for fill in [FillOrder::RowMajor, FillOrder::ColMajor] {
        let mut seen = std::collections::BTreeSet::new();
        for s in 0..12usize {
            let rc = slot_to_rowcol(s, 3, 4, fill);
            assert!(rc.0 < 3 && rc.1 < 4);
            assert!(seen.insert(rc));
        }
        assert_eq!(seen.len(), 12);
    }
}

#[test]
fn nup_five_pages_on_two_by_two_fills_two_sheets() {
    let out = nup_layout(5, 2, 2, FillOrder::RowMajor, false);
    assert_eq!(out.len(), 2);
    assert_eq!(out[0].surfaces.len(), 1);
    assert_eq!(out[0].surfaces[0].side, SurfaceSide::Front);
    assert_eq!(
        out[0].surfaces[0].slots,
        vec![
            Slot { page: 0, row: 0, col: 0 },
            Slot { page: 1, row: 0, col: 1 },
            Slot { page: 2, row: 1, col: 0 },
            Slot { page: 3, row: 1, col: 1 },
        ]
    );
    assert_eq!(out[1].surfaces[0].slots, vec![Slot { page: 4, row: 0, col: 0 }]);
}

#[test]
fn nup_with_back_pairs_slots_one_to_one() {
    let out = nup_layout(3, 1, 2, FillOrder::ColMajor, true);
    assert_eq!(out.len(), 2);
    for sheet in &out {
        assert_eq!(sheet.surfaces.len(), 2);
        assert_eq!(sheet.surfaces[0].side, SurfaceSide::Front);
        assert_eq!(sheet.surfaces[1].side, SurfaceSide::Back);
        assert_eq!(sheet.surfaces[0].slots, sheet.surfaces[1].slots);
    }
    assert_eq!(out[1].surfaces[0].slots, vec![Slot { page: 2, row: 0, col: 0 }]);
}

#[test]
fn nup_places_every_page_exactly_once() {
    let out = nup_layout(23, 2, 3, FillOrder::RowMajor, false);
    let mut pages: Vec<usize> = out.iter().flat_map(|s| s.surfaces[0].slots.iter().map(|x| x.page)).collect();
    pages.sort();
    assert_eq!(pages, (0..23).collect::<Vec<_>>());
    assert!(nup_layout(0, 2, 3, FillOrder::RowMajor, false).is_empty());
}

#[test]
fn booklet_of_six_pages_drops_blank_pads() {
    let order = saddle_order(6);
    let out = booklet_layout(&order, 6);
    assert_eq!(out.len(), 2);
    // Sheet 0 front: [8, 1] -> only page 1 (index 0) in column 1.
    assert_eq!(out[0].surfaces[0].side, SurfaceSide::Front);
    assert_eq!(out[0].surfaces[0].slots, vec![Slot { page: 0, row: 0, col: 1 }]);
    // Sheet 0 back: [2, 7] -> only page 2 in column 0.
    assert_eq!(out[0].surfaces[1].side, SurfaceSide::Back);
    assert_eq!(out[0].surfaces[1].slots, vec![Slot { page: 1, row: 0, col: 0 }]);
    // Sheet 1 front: [6, 3] -> both.
    assert_eq!(
        out[1].surfaces[0].slots,
        vec![Slot { page: 5, row: 0, col: 0 }, Slot { page: 2, row: 0, col: 1 }]
    );
    let placed: usize = out.iter().flat_map(|s| &s.surfaces).map(|s| s.slots.len()).sum();
    assert_eq!(placed, 6);
}

#[test]
fn booklet_with_odd_surface_count_ends_on_a_single_surface() {
    let order = vec![(SurfaceSide::Front, [2, 1]), (SurfaceSide::Back, [1, 2]), (SurfaceSide::Front, [0, 3])];
    let out = booklet_layout(&order, 3);
    assert_eq!(out.len(), 2);
    assert_eq!(out[1].surfaces.len(), 1);
    assert_eq!(out[1].surfaces[0].slots, vec![Slot { page: 2, row: 0, col: 1 }]);
}

#[test]
fn booklet_back_flips_only_on_short_edge() {
    assert!(booklet_flip(SurfaceSide::Back, Duplex::ShortEdge));
    assert!(!booklet_flip(SurfaceSide::Back, Duplex::LongEdge));
    assert!(!booklet_flip(SurfaceSide::Front, Duplex::ShortEdge));
}

#[test]
fn gang_fills_rows_left_to_right() {
    let slots = gang_slots(7, 2, 3);
    assert_eq!(slots.len(), 6);
    assert_eq!(slots[0], Slot { page: 7, row: 0, col: 0 });
    assert_eq!(slots[4], Slot { page: 7, row: 1, col: 1 });
    assert_eq!(slots[5], Slot { page: 7, row: 1, col: 2 });
    assert!(gang_slots(0, 0, 5).is_empty());
}

#[test]
fn gang_neighbours_mark_inner_edges_only() {
    assert_eq!(gang_neighbours(0, 0, 1, 1), Neighbours { left: false, right: false, below: false, above: false });
    assert_eq!(gang_neighbours(1, 1, 3, 3), Neighbours { left: true, right: true, below: true, above: true });
    assert_eq!(gang_neighbours(0, 2, 2, 3), Neighbours { left: true, right: false, below: true, above: false });
}

fn sources() -> Vec<SourceSummary> {
    vec![
        SourceSummary { id: id("front"), page_count: 4 },
        SourceSummary { id: id("back"), page_count: 4 },
        SourceSummary { id: id("short"), page_count: 2 },
        SourceSummary { id: id("back"), page_count: 9 },
    ]
}

#[test]
fn find_source_returns_first_match() {
    assert_eq!(find_source(&sources(), &id("back")), Ok(1));
    assert_eq!(find_source(&sources(), &id("nope")), Err(EngineError::UnknownSource(id("nope"))));
}

#[test]
fn resolve_back_requires_matching_page_count() {
    assert_eq!(resolve_back(&sources(), None, 4), Ok(None));
    assert_eq!(resolve_back(&sources(), Some(&id("back")), 4), Ok(Some(1)));
    assert_eq!(
        resolve_back(&sources(), Some(&id("short")), 4),
        Err(EngineError::BackCountMismatch { back: id("short"), back_pages: 2, front_pages: 4 })
    );
    assert_eq!(resolve_back(&sources(), Some(&id("gone")), 4), Err(EngineError::UnknownSource(id("gone"))));
}

fn placed_pages(out: &[vgdi::layout::SheetPlan]) -> Vec<usize> {
    let mut pages: Vec<usize> = out.iter().flat_map(|s| &s.surfaces).flat_map(|s| s.slots.iter().map(|x| x.page)).collect();
    pages.sort();
    pages
}

#[test]
fn saddle_booklet_places_every_page_once() {
    for pages in 1..=21usize {
        let out = booklet_layout(&saddle_order(pages), pages);
        assert_eq!(placed_pages(&out), (0..pages).collect::<Vec<_>>());
    }
}

#[test]
fn perfect_booklet_places_every_page_once() {
    for (pages, sig) in [(40usize, 16usize), (9, 4), (33, 8), (1, 12)] {
        let out = booklet_layout(&perfect_bound_order(pages, sig), pages);
        assert_eq!(placed_pages(&out), (0..pages).collect::<Vec<_>>());
    }
}
