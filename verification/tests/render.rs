use wm9000::compiler::{Chapter, CompiledDocument, Section};
use wm9000::config::resolve_system_role;
use wm9000::fonts::{resolve_font_plan, FaceChoice, FaceProbe, FontError, FontPlan, FontProbe, FontSource};
use wm9000::layout::{derive_filename, render_steps, PdfOp, RenderStep};
use wm9000::richtext::{BlockType, TextElement};

fn empty_probe() -> FontProbe {
    FontProbe {
        liberation_truetype_ok: false,
        liberation_share_ok: false,
        library_fonts_ok: false,
        windows_dir_exists: false,
        times_regular: FaceProbe::Missing,
        times_bold_ok: false,
        times_italic_ok: false,
        times_bold_italic_ok: false,
        arial_regular: FaceProbe::Missing,
        arial_bold_ok: false,
        arial_italic_ok: false,
        arial_bold_italic_ok: false,
        mac_times: FaceProbe::Missing,
    }
}

fn run(text: &str, block_type: BlockType) -> TextElement {
    TextElement {
        text: text.to_string(),
        bold: false,
        italic: false,
        underline: false,
        strikethrough: false,
        block_type,
    }
}

fn doc_with_chapters(chapters: Vec<Chapter>) -> CompiledDocument {
    CompiledDocument {
        title: "Test Book".to_string(),
        author: "Test Author".to_string(),
        front_matter: None,
        back_matter: None,
        chapters,
    }
}

fn progress_events(steps: &[RenderStep]) -> Vec<(String, usize, usize)> {
    let mut out = Vec::new();
    for s in steps {
        if let RenderStep::Emit { progress } = s {
            out.push((progress.stage.clone(), progress.current, progress.total));
        }
    }
    out
}

#[test]
fn test_no_font_anywhere_fails() {
    let r = resolve_font_plan(&empty_probe());
    assert_eq!(r, Err(FontError::NoFontFound));
}

#[test]
fn test_font_first_success_wins() {
    let mut p = empty_probe();
    p.liberation_share_ok = true;
    p.mac_times = FaceProbe::Loaded;
    let plan = resolve_font_plan(&p).unwrap();
    assert_eq!(plan.source, FontSource::LiberationShare);
}

#[test]
fn test_windows_times_missing_faces_fall_back_to_regular() {
    let mut p = empty_probe();
    p.windows_dir_exists = true;
    p.times_regular = FaceProbe::Loaded;
    p.times_bold_ok = true;
    let plan = resolve_font_plan(&p).unwrap();
    assert_eq!(
        plan,
        FontPlan {
            source: FontSource::WindowsTimes,
            bold: FaceChoice::Own,
            italic: FaceChoice::Regular,
            bold_italic: FaceChoice::Regular,
        }
    );
}

#[test]
fn test_unreadable_regular_is_terminal() {
    let mut p = empty_probe();
    p.windows_dir_exists = true;
    p.times_regular = FaceProbe::Unreadable;
    p.arial_regular = FaceProbe::Loaded;
    assert_eq!(resolve_font_plan(&p), Err(FontError::TimesUnreadable));
}

#[test]
fn test_unreadable_arial_is_terminal() {
    let mut p = empty_probe();
    p.windows_dir_exists = true;
    p.arial_regular = FaceProbe::Unreadable;
    p.mac_times = FaceProbe::Loaded;
    assert_eq!(resolve_font_plan(&p), Err(FontError::ArialUnreadable));
}

#[test]
fn test_unreadable_mac_times_is_terminal() {
    let mut p = empty_probe();
    p.mac_times = FaceProbe::Unreadable;
    assert_eq!(resolve_font_plan(&p), Err(FontError::MacTimesUnreadable));
}

#[test]
fn test_empty_document_two_progress_steps() {
    let doc = doc_with_chapters(vec![]);
    let steps = render_steps(&doc);
    let events = progress_events(&steps);
    assert_eq!(events.len(), 2);
    assert_eq!(events[0], ("Preparing document...".to_string(), 0, 2));
    assert_eq!(events[1], ("Writing PDF file...".to_string(), 2, 2));
}

#[test]
fn test_progress_counts_chapters() {
    let chapter = |t: &str| Chapter {
        title: t.to_string(),
        sections: vec![Section { title: "S".to_string(), elements: vec![] }],
    };
    let doc = doc_with_chapters(vec![chapter("One"), chapter("Two")]);
    let steps = render_steps(&doc);
    let events = progress_events(&steps);
    assert_eq!(events.len(), 4);
    assert_eq!(events[1], ("Rendering chapter 1 of 2...".to_string(), 1, 4));
    assert_eq!(events[2], ("Rendering chapter 2 of 2...".to_string(), 2, 4));
    assert_eq!(events[3], ("Writing PDF file...".to_string(), 4, 4));
}

#[test]
fn test_paragraph_accumulation_flushes() {
    let section = Section {
        title: "Scene".to_string(),
        elements: vec![
            run("alpha ", BlockType::Paragraph),
            run("beta", BlockType::Paragraph),
            run("item", BlockType::ListItem),
        ],
    };
    let doc = doc_with_chapters(vec![Chapter { title: "One".to_string(), sections: vec![section] }]);
    let steps = render_steps(&doc);
    let mut paragraphs: Vec<(Vec<String>, bool)> = Vec::new();
    for s in &steps {
        if let RenderStep::Op { op: PdfOp::Paragraph { runs, centered } } = s {
            paragraphs.push((runs.iter().map(|r| r.text.clone()).collect(), *centered));
        }
    }
    // Title page: title and author; chapter heading; section heading; the
    // coalesced paragraph; the bulleted list item.
    assert_eq!(paragraphs.len(), 6);
    assert_eq!(paragraphs[4].0, vec!["alpha ".to_string(), "beta".to_string()]);
    assert_eq!(paragraphs[5].0, vec!["  - item".to_string()]);
}

#[test]
fn test_front_matter_blank_is_skipped() {
    let mut doc = doc_with_chapters(vec![]);
    doc.front_matter = Some("   ".to_string());
    let steps = render_steps(&doc);
    let breaks = steps
        .iter()
        .filter(|s| matches!(s, RenderStep::Op { op: PdfOp::PageBreak }))
        .count();
    assert_eq!(breaks, 0);
}

#[test]
fn test_back_matter_rendered_after_page_break() {
    let mut doc = doc_with_chapters(vec![]);
    doc.back_matter = Some("The End".to_string());
    let steps = render_steps(&doc);
    let breaks = steps
        .iter()
        .filter(|s| matches!(s, RenderStep::Op { op: PdfOp::PageBreak }))
        .count();
    assert_eq!(breaks, 1);
}

#[test]
fn test_special_characters_in_title() {
    let name = derive_filename("Test: A Book / With Special Chars", "20240101_120000");
    assert_eq!(name, "Test_ A Book _ With Special Chars_20240101_120000.pdf");
    for c in name.chars() {
        assert!(
            c.is_alphanumeric() || c == ' ' || c == '-' || c == '_' || c == '.',
            "unexpected character {:?}",
            c
        );
    }
}

#[test]
fn test_filename_trims_sanitized_title() {
    let name = derive_filename("  Spaced Out  ", "20240101_120000");
    assert_eq!(name, "Spaced Out_20240101_120000.pdf");
}

#[test]
fn test_system_role_override() {
    let fallback = "You are a professional editor.".to_string();
    let picked = resolve_system_role(Some("Be terse.".to_string()), fallback.clone());
    assert_eq!(picked, "Be terse.");
    let defaulted = resolve_system_role(None, fallback.clone());
    assert_eq!(defaulted, fallback);
}
