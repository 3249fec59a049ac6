use julia::settings::{setting_for_keyword, setting_for_lowercase, Setting};

#[test]
fn keywords_and_aliases() {
    assert_eq!(setting_for_lowercase("mi"), Some(Setting::MaxIter));
    assert_eq!(setting_for_lowercase("w"), Some(Setting::ImgWidth));
    assert_eq!(setting_for_lowercase("ar"), Some(Setting::AspectRatio));
    assert_eq!(setting_for_lowercase("dim"), Some(Setting::Dimensions));
    assert_eq!(setting_for_lowercase("sz"), Some(Setting::WindowWidth));
    assert_eq!(setting_for_lowercase("cent"), Some(Setting::WindowCenter));
    assert_eq!(setting_for_lowercase("nf"), Some(Setting::NumFrames));
    assert_eq!(setting_for_lowercase("loop"), Some(Setting::AnimLoop));
    assert_eq!(setting_for_lowercase("c"), Some(Setting::CInit));
    assert_eq!(setting_for_lowercase("c2"), Some(Setting::CFinal));
    assert_eq!(setting_for_lowercase("name"), Some(Setting::Title));
    assert_eq!(setting_for_lowercase("palette"), Some(Setting::Palette1));
    assert_eq!(setting_for_lowercase("p2"), Some(Setting::Palette2));
    assert_eq!(setting_for_lowercase("colour"), None);
}

#[test]
fn keywords_ignore_letter_case() {
    assert_eq!(setting_for_keyword("MaxIter"), Some(Setting::MaxIter));
    assert_eq!(setting_for_keyword("C_FINAL"), Some(Setting::CFinal));
    assert_eq!(setting_for_lowercase("C_FINAL"), None);
}
