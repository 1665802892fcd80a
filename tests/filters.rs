use ssstretch::dsp::filters::{design_code, BiquadDesign, FilterType};

#[test]
fn design_codes_follow_declaration_order() {
    assert_eq!(i32::from(BiquadDesign::Bilinear), 0);
    assert_eq!(i32::from(BiquadDesign::Cookbook), 1);
    assert_eq!(i32::from(BiquadDesign::OneSided), 2);
    assert_eq!(i32::from(BiquadDesign::Vicanek), 3);
}

#[test]
fn missing_design_means_cookbook() {
    assert_eq!(design_code(None), 1);
    assert_eq!(design_code(Some(BiquadDesign::Vicanek)), 3);
    assert_eq!(design_code(Some(BiquadDesign::Bilinear)), 0);
}

#[test]
fn filter_types_compare_by_variant() {
    assert_eq!(FilterType::Notch, FilterType::Notch);
    assert_ne!(FilterType::LowShelf, FilterType::HighShelf);
}
