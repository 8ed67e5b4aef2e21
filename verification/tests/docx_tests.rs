use docx_rs::{DocumentChild, ParagraphChild, Run, RunChild, RunFonts};
use edda_core::docx::{build_docx, build_paragraph, build_run};
use edda_core::filemgr::document::{packaged, Document, DocumentError};
use edda_core::stylemgr::structural::StyledParagraph;
use edda_core::stylemgr::style::{Style, UnderlineStyle};
use edda_core::stylemgr::text::{RunDescriptor, StyledText};

fn texts_of(run: &Run) -> Vec<String> {
    let mut texts = Vec::new();
    for child in &run.children {
        match child {
            RunChild::Text(t) => texts.push(t.text.clone()),
            _ => panic!("a child that is no text"),
        }
    }
    texts
}

fn descriptor(text: &str) -> RunDescriptor {
    StyledText::new(text.to_string(), Style::new()).to_run_descriptor()
}

#[test]
fn run_text_is_kept_without_line_feeds_and_escaped() {
    let run = build_run(&descriptor("a&b <c> \"d\" 'e'\nf\rg"));
    assert_eq!(
        texts_of(&run),
        vec!["a&amp;b &lt;c&gt; &quot;d&quot; &apos;e&apos;fg".to_string()]
    );
    let plain = build_run(&descriptor("plain text"));
    assert_eq!(texts_of(&plain), vec!["plain text".to_string()]);
    let empty = build_run(&descriptor(""));
    assert_eq!(texts_of(&empty), vec!["".to_string()]);
}

#[test]
fn run_has_what_the_descriptor_asks_for() {
    let mut d = descriptor("x");
    d.font = "A&B".to_string();
    d.size = 31;
    d.font_color = "0A0B0C".to_string();
    let run = build_run(&d);
    let property = &run.run_property;
    assert_eq!(property.fonts, Some(RunFonts::new().ascii("A&B")));
    assert_eq!(property.sz, Some(docx_rs::Sz::new(31)));
    assert_eq!(property.color, Some(docx_rs::Color::new("0A0B0C")));
    assert_eq!(property.bold, None);
    assert_eq!(property.italic, None);
    assert_eq!(property.underline, None);
    assert_eq!(property.highlight, None);

    d.bold = true;
    d.italic = true;
    d.underline = Some("wavyDouble".to_string());
    d.highlight_color = Some("FFFF00".to_string());
    let run = build_run(&d);
    let property = &run.run_property;
    assert_eq!(property.bold, Some(docx_rs::Bold::new()));
    assert_eq!(property.italic, Some(docx_rs::Italic::new()));
    assert_eq!(property.underline, Some(docx_rs::Underline::new("wavyDouble")));
    assert_eq!(property.highlight, Some(docx_rs::Highlight::new("FFFF00")));
    assert_eq!(property.sz, Some(docx_rs::Sz::new(31)));
    assert_eq!(
        run,
        Run::new()
            .add_text("x")
            .fonts(RunFonts::new().ascii("A&B"))
            .size(31)
            .color("0A0B0C")
            .bold()
            .italic()
            .underline("wavyDouble")
            .highlight("FFFF00")
    );
}

#[test]
fn raw_run_of_a_styled_text() {
    let style = Style::new()
        .switch_bold()
        .set_underline(Some(UnderlineStyle::Dotted))
        .change_font_color("#ABCDEF".to_string())
        .unwrap();
    let run = StyledText::new("a<b\n".to_string(), style).apply_to_raw();
    assert_eq!(texts_of(&run), vec!["a&lt;b".to_string()]);
    assert_eq!(run.run_property.color, Some(docx_rs::Color::new("ABCDEF")));
    assert_eq!(run.run_property.bold, Some(docx_rs::Bold::new()));
    assert_eq!(run.run_property.italic, None);
    assert_eq!(run.run_property.underline, Some(docx_rs::Underline::new("dotted")));
    assert_eq!(run.run_property.sz, Some(docx_rs::Sz::new(11)));
}

#[test]
fn paragraph_holds_the_runs_in_order() {
    let list = vec![descriptor("one"), descriptor("two"), descriptor("three")];
    let paragraph = build_paragraph(&list);
    let mut seen = Vec::new();
    for child in &paragraph.children {
        match child {
            ParagraphChild::Run(run) => seen.push(texts_of(run)),
            _ => panic!("a child that is no run"),
        }
    }
    assert_eq!(
        seen,
        vec![
            vec!["one".to_string()],
            vec!["two".to_string()],
            vec!["three".to_string()]
        ]
    );
    assert!(build_paragraph(&Vec::new()).children.is_empty());
}

#[test]
fn document_holds_the_paragraphs_in_order() {
    let lists = vec![
        vec![descriptor("a"), descriptor("b")],
        vec![],
        vec![descriptor("c")],
    ];
    let document = build_docx(&lists);
    let mut counts = Vec::new();
    for child in &document.document.children {
        match child {
            DocumentChild::Paragraph(p) => counts.push(p.children.len()),
            _ => panic!("a child that is no paragraph"),
        }
    }
    assert_eq!(counts, vec![2, 0, 1]);
    assert!(build_docx(&Vec::new()).document.children.is_empty());
}

#[test]
fn to_docx_follows_the_document() {
    let mut p = StyledParagraph::new();
    p.add(StyledText::new("Hello ".to_string(), Style::new()));
    p.add(StyledText::new("World".to_string(), Style::new().switch_bold()));
    let mut doc = Document::new("t");
    let _ = doc.add_paragraph(p);
    let _ = doc.add_paragraph(StyledParagraph::new());
    let built = doc.to_docx();
    let children = &built.document.children;
    assert_eq!(children.len(), 2);
    match &children[0] {
        DocumentChild::Paragraph(p) => {
            assert_eq!(p.children.len(), 2);
            match &p.children[1] {
                ParagraphChild::Run(run) => {
                    assert_eq!(texts_of(run), vec!["World".to_string()]);
                    assert_eq!(run.run_property.bold, Some(docx_rs::Bold::new()));
                }
                _ => panic!("a child that is no run"),
            }
        }
        _ => panic!("a child that is no paragraph"),
    }
}

#[test]
fn packaged_keeps_bytes_and_names_the_cause() {
    assert!(matches!(packaged(Ok(vec![1, 2, 3])), Ok(bytes) if bytes == vec![1, 2, 3]));
    assert!(matches!(
        packaged(Err("broken".to_string())),
        Err(DocumentError::DocxPackaging(cause)) if cause == "broken"
    ));
}
