use wm9000::compiler::compile;
use wm9000::richtext::{parse_html_content, BlockType};
use wm9000::types::{ExportFileNode, ExportOptions, ExportPayload};

fn make_payload(nodes: Vec<ExportFileNode>) -> ExportPayload {
    ExportPayload {
        project_name: "test".to_string(),
        nodes,
        options: ExportOptions {
            title: "Test Book".to_string(),
            author: "Test Author".to_string(),
            front_matter: None,
            back_matter: None,
        },
    }
}

#[test]
fn test_empty_project() {
    let payload = make_payload(vec![]);
    let doc = compile(&payload).unwrap();
    assert_eq!(doc.chapters.len(), 0);
}

#[test]
fn test_top_level_files_only() {
    let payload = make_payload(vec![
        ExportFileNode {
            id: 1,
            parent: 0,
            text: "Scene 1".to_string(),
            file_type: "file".to_string(),
            content: Some("<p>Hello world</p>".to_string()),
        },
        ExportFileNode {
            id: 2,
            parent: 0,
            text: "Scene 2".to_string(),
            file_type: "file".to_string(),
            content: Some("<p>Goodbye world</p>".to_string()),
        },
    ]);
    let doc = compile(&payload).unwrap();
    assert_eq!(doc.chapters.len(), 2);
    assert_eq!(doc.chapters[0].title, "Chapter 1");
    assert_eq!(doc.chapters[1].title, "Chapter 2");
}

#[test]
fn test_folders_as_chapters() {
    let payload = make_payload(vec![
        ExportFileNode {
            id: 1,
            parent: 0,
            text: "Act One".to_string(),
            file_type: "folder".to_string(),
            content: None,
        },
        ExportFileNode {
            id: 2,
            parent: 1,
            text: "Opening".to_string(),
            file_type: "file".to_string(),
            content: Some("<p>It was a dark night.</p>".to_string()),
        },
    ]);
    let doc = compile(&payload).unwrap();
    assert_eq!(doc.chapters.len(), 1);
    assert_eq!(doc.chapters[0].title, "Act One");
    assert_eq!(doc.chapters[0].sections.len(), 1);
    assert_eq!(doc.chapters[0].sections[0].title, "Opening");
}

#[test]
fn test_html_bold_italic() {
    let elements = parse_html_content("<p><strong>Bold</strong> and <em>italic</em></p>");
    assert!(elements.len() >= 3);
    assert!(elements[0].bold);
    assert!(!elements[0].italic);
    assert!(elements[2].italic);
    assert!(!elements[2].bold);
}

#[test]
fn test_nested_formatting() {
    let elements = parse_html_content("<p><strong><em>Bold italic</em></strong></p>");
    assert_eq!(elements.len(), 1);
    assert!(elements[0].bold);
    assert!(elements[0].italic);
}

#[test]
fn test_empty_content() {
    let elements = parse_html_content("");
    assert_eq!(elements.len(), 0);
}

#[test]
fn test_list_items() {
    let elements = parse_html_content("<ul><li>Item one</li><li>Item two</li></ul>");
    assert_eq!(elements.len(), 2);
    assert_eq!(elements[0].block_type, BlockType::ListItem);
    assert_eq!(elements[1].block_type, BlockType::ListItem);
}

#[test]
fn test_whitespace_only_content_yields_nothing() {
    let elements = parse_html_content("   \n\t  ");
    assert_eq!(elements.len(), 0);
}

#[test]
fn test_list_item_text_in_order() {
    let elements = parse_html_content("<ul><li>Item one</li><li>Item two</li></ul>");
    assert_eq!(elements[0].text, "Item one");
    assert_eq!(elements[1].text, "Item two");
}

#[test]
fn test_nested_list_flattened() {
    let elements = parse_html_content("<ul><li>Outer</li><ol><li>Inner</li></ol></ul>");
    assert_eq!(elements.len(), 2);
    assert_eq!(elements[0].text, "Outer");
    assert_eq!(elements[1].text, "Inner");
    assert_eq!(elements[0].block_type, BlockType::ListItem);
    assert_eq!(elements[1].block_type, BlockType::ListItem);
}

#[test]
fn test_underline_and_strikethrough_flags() {
    let elements = parse_html_content("<p><u>under</u><s>gone</s></p>");
    assert_eq!(elements.len(), 2);
    assert!(elements[0].underline);
    assert!(!elements[0].strikethrough);
    assert!(elements[1].strikethrough);
    assert!(!elements[1].underline);
}

#[test]
fn test_line_break_becomes_newline_run() {
    let elements = parse_html_content("<p>one<br>two</p>");
    assert_eq!(elements.len(), 3);
    assert_eq!(elements[0].text, "one");
    assert_eq!(elements[1].text, "\n");
    assert_eq!(elements[2].text, "two");
}

#[test]
fn test_heading_block_type() {
    let elements = parse_html_content("<h2>Title</h2><p>Body</p>");
    assert_eq!(elements.len(), 2);
    assert_eq!(elements[0].block_type, BlockType::Heading);
    assert_eq!(elements[1].block_type, BlockType::Paragraph);
}

#[test]
fn test_single_top_level_file_keeps_title() {
    let payload = make_payload(vec![ExportFileNode {
        id: 7,
        parent: 0,
        text: "Only Scene".to_string(),
        file_type: "file".to_string(),
        content: Some("<p>Alone.</p>".to_string()),
    }]);
    let doc = compile(&payload).unwrap();
    assert_eq!(doc.chapters.len(), 1);
    assert_eq!(doc.chapters[0].title, "Only Scene");
}

#[test]
fn test_chapter_numbering_reaches_two_digits() {
    let mut nodes = Vec::new();
    for i in 0..11 {
        nodes.push(ExportFileNode {
            id: i + 1,
            parent: 0,
            text: format!("Scene {}", i + 1),
            file_type: "file".to_string(),
            content: None,
        });
    }
    let doc = compile(&make_payload(nodes)).unwrap();
    assert_eq!(doc.chapters.len(), 11);
    assert_eq!(doc.chapters[9].title, "Chapter 10");
    assert_eq!(doc.chapters[10].title, "Chapter 11");
}

#[test]
fn test_nested_folder_composite_section_title() {
    let payload = make_payload(vec![
        ExportFileNode {
            id: 1,
            parent: 0,
            text: "Part One".to_string(),
            file_type: "folder".to_string(),
            content: None,
        },
        ExportFileNode {
            id: 2,
            parent: 1,
            text: "Sub".to_string(),
            file_type: "folder".to_string(),
            content: None,
        },
        ExportFileNode {
            id: 3,
            parent: 2,
            text: "Deep Scene".to_string(),
            file_type: "file".to_string(),
            content: Some("<p>Below.</p>".to_string()),
        },
    ]);
    let doc = compile(&payload).unwrap();
    assert_eq!(doc.chapters.len(), 1);
    assert_eq!(doc.chapters[0].sections.len(), 1);
    assert_eq!(doc.chapters[0].sections[0].title, "Sub — Deep Scene");
}

#[test]
fn test_orphan_nodes_ignored() {
    let payload = make_payload(vec![ExportFileNode {
        id: 5,
        parent: 42,
        text: "Lost".to_string(),
        file_type: "file".to_string(),
        content: Some("<p>Unreached.</p>".to_string()),
    }]);
    let doc = compile(&payload).unwrap();
    assert_eq!(doc.chapters.len(), 0);
}

#[test]
fn test_options_copied_verbatim() {
    let payload = ExportPayload {
        project_name: "p".to_string(),
        nodes: vec![],
        options: ExportOptions {
            title: "My Book".to_string(),
            author: "An Author".to_string(),
            front_matter: Some("Copyright".to_string()),
            back_matter: Some("The End".to_string()),
        },
    };
    let doc = compile(&payload).unwrap();
    assert_eq!(doc.title, "My Book");
    assert_eq!(doc.author, "An Author");
    assert_eq!(doc.front_matter, Some("Copyright".to_string()));
    assert_eq!(doc.back_matter, Some("The End".to_string()));
}
