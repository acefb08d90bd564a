use std::collections::BTreeSet;
use vgdi::imposition::{perfect_bound_order, round_up_to, saddle_order, Spread};
use vgdi::types::SurfaceSide;

fn spreads(v: &[(SurfaceSide, Spread)]) -> Vec<Spread> {
    v.iter().map(|(_, s)| *s).collect()
}

#[test]
fn round_up_works() {
    assert_eq!(round_up_to(1, 4), 4);
    assert_eq!(round_up_to(4, 4), 4);
    assert_eq!(round_up_to(5, 4), 8);
    assert_eq!(round_up_to(6, 8), 8);
}

#[test]
fn saddle_4_pages_one_sheet() {
    let o = saddle_order(4);
    assert_eq!(o.len(), 2); // front + back
    assert_eq!(o[0], (SurfaceSide::Front, [4, 1]));
    assert_eq!(o[1], (SurfaceSide::Back, [2, 3]));
}

#[test]
fn saddle_8_pages_two_sheets_classic_order() {
    let o = saddle_order(8);
    assert_eq!(
        spreads(&o),
        vec![[8, 1], [2, 7], [6, 3], [4, 5]],
        "standard saddle-stitch imposition for 8 pages"
    );
    assert_eq!(o[0].0, SurfaceSide::Front);
    assert_eq!(o[1].0, SurfaceSide::Back);
}

#[test]
fn saddle_pads_to_multiple_of_four() {
    // 6 pages -> padded to 8; pages 7 and 8 are blanks (caller drops > 6).
    let o = saddle_order(6);
    assert_eq!(o.len(), 4);
    assert_eq!(spreads(&o), vec![[8, 1], [2, 7], [6, 3], [4, 5]]);
}

#[test]
fn saddle_every_page_appears_exactly_once() {
    for pages in [4usize, 8, 12, 16, 20, 36, 100] {
        let o = saddle_order(pages);
        let p = round_up_to(pages, 4);
        let mut seen = BTreeSet::new();
        for (_, [l, r]) in &o {
            assert!(seen.insert(*l), "dup page {l}");
            assert!(seen.insert(*r), "dup page {r}");
        }
        assert_eq!(seen, (1..=p).collect::<BTreeSet<_>>(), "must be a permutation of 1..={p}");
    }
}

#[test]
fn perfect_bound_splits_into_signatures() {
    // 32 pages, 8 per signature -> 4 signatures, each 2 sheets (4 surfaces) = 16 surfaces.
    let o = perfect_bound_order(32, 8);
    assert_eq!(o.len(), 16);
    assert_eq!(o[0], (SurfaceSide::Front, [8, 1]));
    assert_eq!(o[4], (SurfaceSide::Front, [16, 9]), "second signature offset by 8");
}

#[test]
fn perfect_bound_rounds_signature_size_up_to_four() {
    // sig_pages 6 -> 8; 8 pages -> exactly one signature.
    let o = perfect_bound_order(8, 6);
    assert_eq!(o.len(), 4);
    assert_eq!(o[0], (SurfaceSide::Front, [8, 1]));
}

#[test]
fn perfect_bound_every_page_once_across_signatures() {
    let o = perfect_bound_order(40, 16); // 16-pad -> 48 total, 3 signatures
    let mut seen = BTreeSet::new();
    for (_, [l, r]) in &o {
        assert!(seen.insert(*l));
        assert!(seen.insert(*r));
    }
    assert_eq!(seen, (1..=48).collect::<BTreeSet<_>>());
}

#[test]
fn saddle_zero_pages_still_makes_one_sheet() {
    // A book has at least one page: zero pads to one all-blank sheet.
    assert_eq!(saddle_order(0), vec![(SurfaceSide::Front, [4, 1]), (SurfaceSide::Back, [2, 3])]);
    assert_eq!(round_up_to(0, 4), 0);
    assert_eq!(round_up_to(7, 0), 7);
}

#[test]
fn saddle_spreads_sum_to_padded_plus_one() {
    // Law: on every surface the two pages face each other across the fold: l + r == p + 1.
    for pages in 1..=40usize {
        let p = round_up_to(pages, 4);
        for (_, [l, r]) in saddle_order(pages) {
            assert_eq!(l + r, p + 1);
        }
    }
}

#[test]
fn saddle_sides_alternate_front_back() {
    let o = saddle_order(12);
    for (i, (side, _)) in o.iter().enumerate() {
        let expect = if i % 2 == 0 { SurfaceSide::Front } else { SurfaceSide::Back };
        assert_eq!(*side, expect);
    }
}

#[test]
fn perfect_bound_small_signature_is_four() {
    // A signature size below 4 rounds up to 4: each signature is one sheet.
    let o = perfect_bound_order(8, 0);
    assert_eq!(
        o,
        vec![
            (SurfaceSide::Front, [4, 1]),
            (SurfaceSide::Back, [2, 3]),
            (SurfaceSide::Front, [8, 5]),
            (SurfaceSide::Back, [6, 7]),
        ]
    );
}

#[test]
fn perfect_bound_zero_pages_makes_one_signature() {
    let o = perfect_bound_order(0, 8);
    assert_eq!(spreads(&o), vec![[8, 1], [2, 7], [6, 3], [4, 5]]);
}
