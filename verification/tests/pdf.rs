use vgdi::pdf::{
    color_op, detect_group_cs, group_cs_for_components, group_cs_for_name, group_dict, scan_resources,
    separation_spot, spot_index, text_operand, GroupCs, GroupDecl, MarkInk,
};

#[test]
fn group_cs_pdf_names() {
    assert_eq!(GroupCs::DeviceCmyk.pdf_name(), "DeviceCMYK");
    assert_eq!(GroupCs::DeviceRgb.pdf_name(), "DeviceRGB");
    assert_eq!(GroupCs::DeviceGray.pdf_name(), "DeviceGray");
}

#[test]
fn group_names_map_to_families() {
    assert_eq!(group_cs_for_name("/DeviceRGB"), GroupCs::DeviceRgb);
    assert_eq!(group_cs_for_name("CalRGB"), GroupCs::DeviceRgb);
    assert_eq!(group_cs_for_name("//RGB"), GroupCs::DeviceRgb);
    assert_eq!(group_cs_for_name("/DeviceGray"), GroupCs::DeviceGray);
    assert_eq!(group_cs_for_name("/CalGray"), GroupCs::DeviceGray);
    assert_eq!(group_cs_for_name("/G"), GroupCs::DeviceGray);
    assert_eq!(group_cs_for_name("/DeviceCMYK"), GroupCs::DeviceCmyk);
    assert_eq!(group_cs_for_name("/Lab"), GroupCs::DeviceCmyk);
    assert_eq!(group_cs_for_name("/RGBX"), GroupCs::DeviceCmyk);
    assert_eq!(group_cs_for_name(""), GroupCs::DeviceCmyk);
}

#[test]
fn icc_component_count_maps_to_families() {
    assert_eq!(group_cs_for_components(Some(1)), GroupCs::DeviceGray);
    assert_eq!(group_cs_for_components(Some(3)), GroupCs::DeviceRgb);
    assert_eq!(group_cs_for_components(Some(4)), GroupCs::DeviceCmyk);
    assert_eq!(group_cs_for_components(None), GroupCs::DeviceCmyk);
}

#[test]
fn undeclared_group_defaults_to_cmyk() {
    assert_eq!(detect_group_cs(&GroupDecl::Undeclared), GroupCs::DeviceCmyk);
    assert_eq!(detect_group_cs(&GroupDecl::Name("/DeviceRGB".to_string())), GroupCs::DeviceRgb);
    assert_eq!(detect_group_cs(&GroupDecl::Array(Some(1))), GroupCs::DeviceGray);
}

fn spot(s: &str) -> MarkInk {
    MarkInk::Spot(s.to_string())
}

#[test]
fn resources_collect_distinct_spots_in_first_appearance_order() {
    let prims = vec![MarkInk::Process("0 0 0 1".to_string()), spot("Gold"), spot("Silver"), spot("Gold")];
    let texts = vec![spot("Silver"), spot("Varnish")];
    let res = scan_resources(&prims, &texts);
    assert!(!res.sep_all);
    assert!(res.font);
    assert_eq!(res.spots, vec!["Gold".to_string(), "Silver".to_string(), "Varnish".to_string()]);
}

#[test]
fn registration_ink_needs_sep_all_and_no_text_needs_no_font() {
    let res = scan_resources(&vec![MarkInk::RegistrationAll], &Vec::new());
    assert!(res.sep_all);
    assert!(!res.font);
    assert!(res.spots.is_empty());
    let res = scan_resources(&Vec::new(), &vec![MarkInk::RegistrationAll]);
    assert!(res.sep_all);
    assert!(res.font);
}

#[test]
fn colour_operators() {
    let res = scan_resources(&vec![spot("A"), spot("B")], &Vec::new());
    assert_eq!(color_op(&MarkInk::RegistrationAll, true, &res), "/SepAll CS 1 SCN");
    assert_eq!(color_op(&MarkInk::RegistrationAll, false, &res), "/SepAll cs 1 scn");
    assert_eq!(color_op(&MarkInk::Process("0 0.5 0 1".to_string()), true, &res), "0 0.5 0 1 K");
    assert_eq!(color_op(&MarkInk::Process("0 0.5 0 1".to_string()), false, &res), "0 0.5 0 1 k");
    assert_eq!(color_op(&spot("B"), true, &res), "/Spot1 CS 1 SCN");
    assert_eq!(color_op(&spot("A"), false, &res), "/Spot0 cs 1 scn");
    // An undeclared spot falls back to the first resource.
    assert_eq!(color_op(&spot("Z"), false, &res), "/Spot0 cs 1 scn");
}

#[test]
fn spot_index_is_first_position_or_zero() {
    let spots = vec!["x".to_string(), "y".to_string(), "y".to_string()];
    assert_eq!(spot_index(&spots, &"y".to_string()), 1);
    assert_eq!(spot_index(&spots, &"q".to_string()), 0);
    let many: Vec<String> = (0..12).map(|i| format!("s{i}")).collect();
    let res = scan_resources(&many.iter().map(|s| MarkInk::Spot(s.clone())).collect(), &Vec::new());
    assert_eq!(color_op(&spot("s11"), true, &res), "/Spot11 CS 1 SCN");
}

#[test]
fn text_operand_transcodes_and_escapes() {
    assert_eq!(text_operand("job (1).pdf · 3"), "(job \\(1\\).pdf \\267 3)");
    assert_eq!(text_operand(""), "()");
}

#[test]
fn group_dictionary_text() {
    assert_eq!(group_dict(GroupCs::DeviceRgb), "<< /Type /Group /S /Transparency /I true /CS /DeviceRGB >>");
}

#[test]
fn separation_spot_encodes_the_colorant_name() {
    assert_eq!(
        separation_spot("PANTONE 185 C"),
        "[ /Separation /PANTONE#20185#20C /DeviceCMYK << /FunctionType 2 /Domain [ 0 1 ] /C0 [ 0 0 0 0 ] /C1 [ 0 0 0 1 ] /N 1 >> ]"
    );
}
