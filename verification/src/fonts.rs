//! The font resolver's decision rule. The shell probes the fixed platform
//! locations and loads font files; this module decides, from those probe
//! outcomes alone, which source serves the document and which faces fall
//! back to the regular face. A family is only ever resolved around a
//! loadable regular face; when no location yields one, resolution fails
//! terminally.
use vstd::prelude::*;

verus! {

use vstd::string::StringExecFns;

/// What probing one font file found: the file is absent, present but not
/// loadable, or loaded.
#[derive(Debug, Clone, Copy, PartialEq, Eq, Structural)]
pub enum FaceProbe {
    Missing,
    Unreadable,
    Loaded,
}

/// The outcome of probing every fixed location, gathered by the shell.
/// The three directory flags say whether a whole family loaded from the
/// named-family directories; the per-face fields describe the fixed
/// Windows file names and the fixed macOS file.
#[derive(Debug, Clone, Copy, PartialEq, Eq, Structural)]
pub struct FontProbe {
    pub liberation_truetype_ok: bool,
    pub liberation_share_ok: bool,
    pub library_fonts_ok: bool,
    pub windows_dir_exists: bool,
    pub times_regular: FaceProbe,
    pub times_bold_ok: bool,
    pub times_italic_ok: bool,
    pub times_bold_italic_ok: bool,
    pub arial_regular: FaceProbe,
    pub arial_bold_ok: bool,
    pub arial_italic_ok: bool,
    pub arial_bold_italic_ok: bool,
    pub mac_times: FaceProbe,
}

/// Which location serves the resolved family.
#[derive(Debug, Clone, Copy, PartialEq, Eq, Structural)]
pub enum FontSource {
    LiberationTruetype,
    LiberationShare,
    LibraryFonts,
    WindowsTimes,
    WindowsArial,
    MacTimes,
}

/// Whether a styled face uses its own file or falls back to the regular
/// face.
#[derive(Debug, Clone, Copy, PartialEq, Eq, Structural)]
pub enum FaceChoice {
    Own,
    Regular,
}

/// The resolved plan: where the family comes from and which styled faces
/// the regular face stands in for.
#[derive(Debug, Clone, Copy, PartialEq, Eq, Structural)]
pub struct FontPlan {
    pub source: FontSource,
    pub bold: FaceChoice,
    pub italic: FaceChoice,
    pub bold_italic: FaceChoice,
}

/// Why resolution ended without a family.
#[derive(Debug, Clone, Copy, PartialEq, Eq, Structural)]
pub enum FontError {
    TimesUnreadable,
    ArialUnreadable,
    MacTimesUnreadable,
    NoFontFound,
}

pub open spec fn face_or_regular(ok: bool) -> FaceChoice {
    if ok {
        FaceChoice::Own
    } else {
        FaceChoice::Regular
    }
}

/// The ordered fallback chain, first success winning: the three family
/// directories, then the Windows Times files, then the Windows Arial files,
/// then the macOS Times file. A regular face that exists but cannot be
/// loaded ends the chain with an error, as does exhausting it.
pub open spec fn resolve_spec(p: FontProbe) -> Result<FontPlan, FontError> {
    if p.liberation_truetype_ok {
        Ok(
            FontPlan {
                source: FontSource::LiberationTruetype,
                bold: FaceChoice::Own,
                italic: FaceChoice::Own,
                bold_italic: FaceChoice::Own,
            },
        )
    } else if p.liberation_share_ok {
        Ok(
            FontPlan {
                source: FontSource::LiberationShare,
                bold: FaceChoice::Own,
                italic: FaceChoice::Own,
                bold_italic: FaceChoice::Own,
            },
        )
    } else if p.library_fonts_ok {
        Ok(
            FontPlan {
                source: FontSource::LibraryFonts,
                bold: FaceChoice::Own,
                italic: FaceChoice::Own,
                bold_italic: FaceChoice::Own,
            },
        )
    } else if p.windows_dir_exists && p.times_regular is Loaded {
        Ok(
            FontPlan {
                source: FontSource::WindowsTimes,
                bold: face_or_regular(p.times_bold_ok),
                italic: face_or_regular(p.times_italic_ok),
                bold_italic: face_or_regular(p.times_bold_italic_ok),
            },
        )
    } else if p.windows_dir_exists && p.times_regular is Unreadable {
        Err(FontError::TimesUnreadable)
    } else if p.windows_dir_exists && p.arial_regular is Loaded {
        Ok(
            FontPlan {
                source: FontSource::WindowsArial,
                bold: face_or_regular(p.arial_bold_ok),
                italic: face_or_regular(p.arial_italic_ok),
                bold_italic: face_or_regular(p.arial_bold_italic_ok),
            },
        )
    } else if p.windows_dir_exists && p.arial_regular is Unreadable {
        Err(FontError::ArialUnreadable)
    } else if p.mac_times is Loaded {
        Ok(
            FontPlan {
                source: FontSource::MacTimes,
                bold: FaceChoice::Regular,
                italic: FaceChoice::Regular,
                bold_italic: FaceChoice::Regular,
            },
        )
    } else if p.mac_times is Unreadable {
        Err(FontError::MacTimesUnreadable)
    } else {
        Err(FontError::NoFontFound)
    }
}

/// Whether the probe found a loadable regular face at the plan's source.
pub open spec fn regular_loaded_at(p: FontProbe, source: FontSource) -> bool {
    match source {
        FontSource::LiberationTruetype => p.liberation_truetype_ok,
        FontSource::LiberationShare => p.liberation_share_ok,
        FontSource::LibraryFonts => p.library_fonts_ok,
        FontSource::WindowsTimes => p.windows_dir_exists && p.times_regular is Loaded,
        FontSource::WindowsArial => p.windows_dir_exists && p.arial_regular is Loaded,
        FontSource::MacTimes => p.mac_times is Loaded,
    }
}

/// Picks the font plan for a probe outcome.
pub fn resolve_font_plan(p: &FontProbe) -> (r: Result<FontPlan, FontError>)
    ensures
        r == resolve_spec(*p),
{
    if p.liberation_truetype_ok {
        Ok(
            FontPlan {
                source: FontSource::LiberationTruetype,
                bold: FaceChoice::Own,
                italic: FaceChoice::Own,
                bold_italic: FaceChoice::Own,
            },
        )
    } else if p.liberation_share_ok {
        Ok(
            FontPlan {
                source: FontSource::LiberationShare,
                bold: FaceChoice::Own,
                italic: FaceChoice::Own,
                bold_italic: FaceChoice::Own,
            },
        )
    } else if p.library_fonts_ok {
        Ok(
            FontPlan {
                source: FontSource::LibraryFonts,
                bold: FaceChoice::Own,
                italic: FaceChoice::Own,
                bold_italic: FaceChoice::Own,
            },
        )
    } else if p.windows_dir_exists && matches!(p.times_regular, FaceProbe::Loaded) {
        Ok(
            FontPlan {
                source: FontSource::WindowsTimes,
                bold: if p.times_bold_ok {
                    FaceChoice::Own
                } else {
                    FaceChoice::Regular
                },
                italic: if p.times_italic_ok {
                    FaceChoice::Own
                } else {
                    FaceChoice::Regular
                },
                bold_italic: if p.times_bold_italic_ok {
                    FaceChoice::Own
                } else {
                    FaceChoice::Regular
                },
            },
        )
    } else if p.windows_dir_exists && matches!(p.times_regular, FaceProbe::Unreadable) {
        Err(FontError::TimesUnreadable)
    } else if p.windows_dir_exists && matches!(p.arial_regular, FaceProbe::Loaded) {
        Ok(
            FontPlan {
                source: FontSource::WindowsArial,
                bold: if p.arial_bold_ok {
                    FaceChoice::Own
                } else {
                    FaceChoice::Regular
                },
                italic: if p.arial_italic_ok {
                    FaceChoice::Own
                } else {
                    FaceChoice::Regular
                },
                bold_italic: if p.arial_bold_italic_ok {
                    FaceChoice::Own
                } else {
                    FaceChoice::Regular
                },
            },
        )
    } else if p.windows_dir_exists && matches!(p.arial_regular, FaceProbe::Unreadable) {
        Err(FontError::ArialUnreadable)
    } else if matches!(p.mac_times, FaceProbe::Loaded) {
        Ok(
            FontPlan {
                source: FontSource::MacTimes,
                bold: FaceChoice::Regular,
                italic: FaceChoice::Regular,
                bold_italic: FaceChoice::Regular,
            },
        )
    } else if matches!(p.mac_times, FaceProbe::Unreadable) {
        Err(FontError::MacTimesUnreadable)
    } else {
        Err(FontError::NoFontFound)
    }
}

/// Law: when no known location yields anything, resolution fails
/// terminally; and a resolved family always rests on a loadable regular
/// face at its source — a plan without one is never produced.
pub proof fn lemma_no_font_sound(p: FontProbe)
    ensures
        !p.liberation_truetype_ok && !p.liberation_share_ok && !p.library_fonts_ok
            && p.times_regular is Missing && p.arial_regular is Missing && p.mac_times is Missing
            ==> resolve_spec(p) == Err::<FontPlan, FontError>(FontError::NoFontFound),
        resolve_spec(p) matches Ok(plan) ==> regular_loaded_at(p, plan.source),
{
}

/// The fixed directories probed, in order, for a named serif family.
pub fn family_dir_candidates() -> (r: Vec<String>)
    ensures
        r@.len() == 3,
        r@[0]@ == "/usr/share/fonts/truetype/liberation"@,
        r@[1]@ == "/usr/share/fonts/liberation"@,
        r@[2]@ == "/Library/Fonts"@,
{
    let mut dirs: Vec<String> = Vec::new();
    dirs.push("/usr/share/fonts/truetype/liberation".to_owned());
    dirs.push("/usr/share/fonts/liberation".to_owned());
    dirs.push("/Library/Fonts".to_owned());
    dirs
}

/// The family name looked up in those directories.
pub fn family_name() -> (r: String)
    ensures
        r@ == "LiberationSerif"@,
{
    "LiberationSerif".to_owned()
}

/// The fixed Times New Roman file names under the Windows font directory:
/// regular, bold, italic, bold italic.
pub fn times_file_names() -> (r: Vec<String>)
    ensures
        r@.len() == 4,
        r@[0]@ == "times.ttf"@,
        r@[1]@ == "timesbd.ttf"@,
        r@[2]@ == "timesi.ttf"@,
        r@[3]@ == "timesbi.ttf"@,
{
    let mut names: Vec<String> = Vec::new();
    names.push("times.ttf".to_owned());
    names.push("timesbd.ttf".to_owned());
    names.push("timesi.ttf".to_owned());
    names.push("timesbi.ttf".to_owned());
    names
}

/// The fixed Arial file names under the Windows font directory, in the
/// same face order.
pub fn arial_file_names() -> (r: Vec<String>)
    ensures
        r@.len() == 4,
        r@[0]@ == "arial.ttf"@,
        r@[1]@ == "arialbd.ttf"@,
        r@[2]@ == "ariali.ttf"@,
        r@[3]@ == "arialbi.ttf"@,
{
    let mut names: Vec<String> = Vec::new();
    names.push("arial.ttf".to_owned());
    names.push("arialbd.ttf".to_owned());
    names.push("ariali.ttf".to_owned());
    names.push("arialbi.ttf".to_owned());
    names
}

} // verus!
