use vstd::prelude::*;
use crate::palette::same_name;

verus! {

/// The render setting that a command-line keyword names.
#[derive(Clone, Copy, Debug, PartialEq, Eq, Structural)]
pub enum Setting {
    MaxIter,
    ImgWidth,
    AspectRatio,
    Dimensions,
    WindowWidth,
    WindowCenter,
    NumFrames,
    AnimLoop,
    CInit,
    CFinal,
    Title,
    Palette1,
    Palette2,
}

/// The setting that a lower-case keyword names, with its aliases; `None` for an
/// unknown keyword.
pub open spec fn setting_named(k: Seq<char>) -> Option<Setting> {
    if k == "max_iter"@ || k == "mi"@ || k == "maxiter"@ {
        Some(Setting::MaxIter)
    } else if k == "img_width"@ || k == "width"@ || k == "w"@ {
        Some(Setting::ImgWidth)
    } else if k == "aspect_ratio"@ || k == "aspect"@ || k == "ar"@ {
        Some(Setting::AspectRatio)
    } else if k == "dimensions"@ || k == "dim"@ {
        Some(Setting::Dimensions)
    } else if k == "window_width"@ || k == "size"@ || k == "sz"@ || k == "ww"@ {
        Some(Setting::WindowWidth)
    } else if k == "window_center"@ || k == "center"@ || k == "cent"@ {
        Some(Setting::WindowCenter)
    } else if k == "num_frames"@ || k == "frames"@ || k == "nf"@ {
        Some(Setting::NumFrames)
    } else if k == "loop"@ || k == "anim_loop"@ {
        Some(Setting::AnimLoop)
    } else if k == "c_init"@ || k == "cinit"@ || k == "c1"@ || k == "c"@ {
        Some(Setting::CInit)
    } else if k == "c_final"@ || k == "cfinal"@ || k == "c2"@ {
        Some(Setting::CFinal)
    } else if k == "title"@ || k == "filename"@ || k == "name"@ {
        Some(Setting::Title)
    } else if k == "palette1"@ || k == "pal1"@ || k == "p1"@ || k == "palette"@ {
        Some(Setting::Palette1)
    } else if k == "palette2"@ || k == "pal2"@ || k == "p2"@ {
        Some(Setting::Palette2)
    } else {
        None
    }
}

/// What `str::to_lowercase` gives for a text.
pub uninterp spec fn lower_of(s: Seq<char>) -> Seq<char>;

/// Relies on str::to_lowercase: the lower-case form of the text, which depends on
/// its characters alone.
#[verifier::external_body]
fn lowercase(s: &str) -> (r: String)
    ensures
        r@ == lower_of(s@),
{
    s.to_lowercase()
}

/// The setting that an already lower-cased keyword names.
pub fn setting_for_lowercase(k: &str) -> (r: Option<Setting>)
    ensures
        r == setting_named(k@),
{
    if same_name(k, "max_iter") || same_name(k, "mi") || same_name(k, "maxiter") {
        Some(Setting::MaxIter)
    } else if same_name(k, "img_width") || same_name(k, "width") || same_name(k, "w") {
        Some(Setting::ImgWidth)
    } else if same_name(k, "aspect_ratio") || same_name(k, "aspect") || same_name(k, "ar") {
        Some(Setting::AspectRatio)
    } else if same_name(k, "dimensions") || same_name(k, "dim") {
        Some(Setting::Dimensions)
    } else if same_name(k, "window_width") || same_name(k, "size") || same_name(k, "sz")
        || same_name(k, "ww") {
        Some(Setting::WindowWidth)
    } else if same_name(k, "window_center") || same_name(k, "center") || same_name(k, "cent") {
        Some(Setting::WindowCenter)
    } else if same_name(k, "num_frames") || same_name(k, "frames") || same_name(k, "nf") {
        Some(Setting::NumFrames)
    } else if same_name(k, "loop") || same_name(k, "anim_loop") {
        Some(Setting::AnimLoop)
    } else if same_name(k, "c_init") || same_name(k, "cinit") || same_name(k, "c1") || same_name(
        k,
        "c",
    ) {
        Some(Setting::CInit)
    } else if same_name(k, "c_final") || same_name(k, "cfinal") || same_name(k, "c2") {
        Some(Setting::CFinal)
    } else if same_name(k, "title") || same_name(k, "filename") || same_name(k, "name") {
        Some(Setting::Title)
    } else if same_name(k, "palette1") || same_name(k, "pal1") || same_name(k, "p1") || same_name(
        k,
        "palette",
    ) {
        Some(Setting::Palette1)
    } else if same_name(k, "palette2") || same_name(k, "pal2") || same_name(k, "p2") {
        Some(Setting::Palette2)
    } else {
        None
    }
}

/// The setting that a keyword names, whatever its letter case.
pub fn setting_for_keyword(keyword: &str) -> (r: Option<Setting>)
    ensures
        r == setting_named(lower_of(keyword@)),
{
    let k = lowercase(keyword);
    setting_for_lowercase(k.as_str())
}

} // verus!
