use vgdi::marks::{
    gripper_edge_for, mark_surfaces, marks_all_off, sheets_per_signature, signature_of_sheet, slug_line,
    surface_layout_for, work_style_content_flip, work_style_reflection, GripperEdge, MarkContext,
    MarkToggles, Reflection, SchemeKind, SurfaceLayout, SurfaceMarkSetup,
};
use vgdi::types::{SlugField, SurfaceSide, WorkStyle};

fn all_off() -> MarkToggles {
    MarkToggles {
        crop: false,
        center: false,
        trim_outline: false,
        registration: false,
        fold: false,
        collation: false,
        color_bar: false,
        slug: false,
        job_barcode: false,
        bleed: false,
    }
}

#[test]
fn toggles_all_off_only_when_every_family_is_off() {
    assert!(marks_all_off(&all_off()));
    assert!(!marks_all_off(&MarkToggles { crop: true, ..all_off() }));
    assert!(!marks_all_off(&MarkToggles { bleed: true, ..all_off() }));
    assert!(!marks_all_off(&MarkToggles { job_barcode: true, ..all_off() }));
}

#[test]
fn layout_follows_scheme() {
    assert_eq!(surface_layout_for(SchemeKind::NUp), SurfaceLayout::Independent);
    assert_eq!(surface_layout_for(SchemeKind::Manual), SurfaceLayout::Independent);
    assert_eq!(surface_layout_for(SchemeKind::StepRepeat), SurfaceLayout::Gang);
    assert_eq!(surface_layout_for(SchemeKind::SaddleStitch), SurfaceLayout::Folded);
    assert_eq!(surface_layout_for(SchemeKind::PerfectBound { signature_pages: 16 }), SurfaceLayout::Folded);
}

#[test]
fn signatures_span_quarter_page_count_sheets() {
    assert_eq!(sheets_per_signature(SchemeKind::PerfectBound { signature_pages: 16 }), Some(4));
    assert_eq!(sheets_per_signature(SchemeKind::PerfectBound { signature_pages: 6 }), Some(2));
    assert_eq!(sheets_per_signature(SchemeKind::PerfectBound { signature_pages: 0 }), Some(1));
    assert_eq!(sheets_per_signature(SchemeKind::SaddleStitch), None);
    assert_eq!(sheets_per_signature(SchemeKind::NUp), None);
}

#[test]
fn signature_numbers_step_per_signature() {
    assert_eq!(signature_of_sheet(Some(2), 0), Some(1));
    assert_eq!(signature_of_sheet(Some(2), 1), Some(1));
    assert_eq!(signature_of_sheet(Some(2), 2), Some(2));
    assert_eq!(signature_of_sheet(Some(0), 3), Some(4));
    assert_eq!(signature_of_sheet(None, 3), None);
}

#[test]
fn only_perfector_turns_back_content() {
    assert!(work_style_content_flip(WorkStyle::Perfector));
    assert!(!work_style_content_flip(WorkStyle::Sheetwise));
    assert!(!work_style_content_flip(WorkStyle::WorkAndTurn));
    assert!(!work_style_content_flip(WorkStyle::WorkAndTumble));
}

#[test]
fn work_style_reflections() {
    assert_eq!(work_style_reflection(WorkStyle::Sheetwise), Reflection { x: false, y: false });
    assert_eq!(work_style_reflection(WorkStyle::WorkAndTurn), Reflection { x: true, y: false });
    assert_eq!(work_style_reflection(WorkStyle::WorkAndTumble), Reflection { x: false, y: true });
    assert_eq!(work_style_reflection(WorkStyle::Perfector), Reflection { x: true, y: true });
}

#[test]
fn gripper_moves_to_top_on_driven_tumble_backs() {
    assert_eq!(gripper_edge_for(SchemeKind::NUp, WorkStyle::WorkAndTumble, SurfaceSide::Back), GripperEdge::Top);
    assert_eq!(gripper_edge_for(SchemeKind::StepRepeat, WorkStyle::Perfector, SurfaceSide::Back), GripperEdge::Top);
    assert_eq!(gripper_edge_for(SchemeKind::NUp, WorkStyle::WorkAndTumble, SurfaceSide::Front), GripperEdge::Bottom);
    assert_eq!(gripper_edge_for(SchemeKind::NUp, WorkStyle::WorkAndTurn, SurfaceSide::Back), GripperEdge::Bottom);
    assert_eq!(
        gripper_edge_for(SchemeKind::SaddleStitch, WorkStyle::Perfector, SurfaceSide::Back),
        GripperEdge::Bottom
    );
}

#[test]
fn mark_pass_is_skipped_when_everything_is_off() {
    let sides = vec![vec![SurfaceSide::Front]];
    assert!(mark_surfaces(SchemeKind::NUp, WorkStyle::Sheetwise, &all_off(), &sides).is_none());
}

#[test]
fn mark_pass_numbers_sheets_and_signatures() {
    let toggles = MarkToggles { collation: true, ..all_off() };
    let sides = vec![
        vec![SurfaceSide::Front, SurfaceSide::Back],
        vec![SurfaceSide::Front, SurfaceSide::Back],
        vec![SurfaceSide::Front, SurfaceSide::Back],
    ];
    let kind = SchemeKind::PerfectBound { signature_pages: 8 };
    let out = mark_surfaces(kind, WorkStyle::Perfector, &toggles, &sides).unwrap();
    assert_eq!(out.len(), 3);
    assert_eq!(
        out[2][1],
        SurfaceMarkSetup {
            sheet_number: 3,
            side: SurfaceSide::Back,
            signature: Some(2),
            gripper: GripperEdge::Bottom,
            layout: SurfaceLayout::Folded,
        }
    );
    assert_eq!(out[1][0].signature, Some(1));
}

#[test]
fn mark_pass_moves_gripper_on_nup_tumble_back() {
    let toggles = MarkToggles { crop: true, ..all_off() };
    let sides = vec![vec![SurfaceSide::Front, SurfaceSide::Back]];
    let out = mark_surfaces(SchemeKind::NUp, WorkStyle::WorkAndTumble, &toggles, &sides).unwrap();
    assert_eq!(out[0][0].gripper, GripperEdge::Bottom);
    assert_eq!(out[0][1].gripper, GripperEdge::Top);
    assert_eq!(out[0][1].signature, None);
    assert_eq!(out[0][1].layout, SurfaceLayout::Independent);
}

fn ctx(surface: SurfaceSide) -> MarkContext<'static> {
    MarkContext { file_name: "job.pdf", sheet_number: 3, surface, signature: None }
}

#[test]
fn slug_resolves_tokens_joined_by_middle_dot() {
    let fields = vec![SlugField::FileName, SlugField::SheetNumber, SlugField::Surface];
    assert_eq!(slug_line(&fields, &ctx(SurfaceSide::Back)), Some("job.pdf · 3 · back".to_string()));
}

#[test]
fn slug_drops_fields_without_a_deterministic_source() {
    let fields = vec![
        SlugField::DateTime,
        SlugField::Operator,
        SlugField::Custom("Proof".to_string()),
        SlugField::JobNumber,
        SlugField::Separation,
        SlugField::Surface,
    ];
    assert_eq!(slug_line(&fields, &ctx(SurfaceSide::Front)), Some("Proof · front".to_string()));
}

#[test]
fn slug_with_nothing_resolved_is_none() {
    let fields = vec![SlugField::DateTime, SlugField::Custom(String::new())];
    assert_eq!(slug_line(&fields, &ctx(SurfaceSide::Front)), None);
    assert_eq!(slug_line(&Vec::new(), &ctx(SurfaceSide::Front)), None);
}

#[test]
fn slug_sheet_number_is_decimal() {
    let c = MarkContext { file_name: "", sheet_number: 120, surface: SurfaceSide::Front, signature: Some(2) };
    assert_eq!(slug_line(&vec![SlugField::FileName, SlugField::SheetNumber], &c), Some("120".to_string()));
}

#[test]
fn signatures_form_a_staircase() {
    let per = sheets_per_signature(SchemeKind::PerfectBound { signature_pages: 12 }).unwrap();
    assert_eq!(per, 3);
    let sigs: Vec<usize> = (0..9).map(|s| signature_of_sheet(Some(per), s).unwrap()).collect();
    assert_eq!(sigs, vec![1, 1, 1, 2, 2, 2, 3, 3, 3]);
}
