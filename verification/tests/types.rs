use vgdi::types::{
    default_no_bleed, default_true, AutocutterMarks, Barcode, BleedMode, ColorPolicy, CutterSystem,
    MarkRegion, OutputTarget, Symbology, SCHEMA_ID,
};

#[test]
fn schema_identifier() {
    assert_eq!(SCHEMA_ID, "vgdi/jobspec@1");
}

#[test]
fn field_defaults() {
    assert!(default_true());
    assert_eq!(default_no_bleed(), BleedMode::NoBleed);
}

#[test]
fn struct_defaults() {
    let a = AutocutterMarks::default();
    assert_eq!(a.system, CutterSystem::Generic);
    assert!(a.barcode && a.cut_marks && !a.omr);
    let b = Barcode::default();
    assert_eq!(b.symbology, Symbology::Code128);
    assert!(b.data.is_empty());
    assert_eq!(b.region, MarkRegion::Slug);
    let c = ColorPolicy::default();
    assert!(c.preserve_spots && c.preserve_overprint);
    let o = OutputTarget::default();
    assert!(o.pdfx.is_none() && o.pdf_version.is_none());
}
