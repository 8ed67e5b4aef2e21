use edda_core::stylemgr::structural::{ParagraphModifyError, StyledParagraph};
use edda_core::stylemgr::style::{Style, UnderlineStyle};
use edda_core::stylemgr::text::StyledText;

#[test]
fn test_paragraph_new_and_default() {
    let p_new = StyledParagraph::new();
    let p_default = StyledParagraph::default();
    assert!(p_new.raw.is_empty());
    assert_eq!(p_new, p_default);
}

#[test]
fn test_paragraph_add() {
    let mut p = StyledParagraph::new();
    let st1 = StyledText::new("Hello ".to_string(), Style::new());
    let st2 = StyledText::new("World".to_string(), Style::new().switch_bold());
    p.add(st1.clone());
    p.add(st2.clone());
    assert_eq!(p.raw.len(), 2);
    assert_eq!(p.raw[0], st1);
    assert_eq!(p.raw[1], st2);
}

#[test]
fn test_paragraph_insert() {
    let mut p = StyledParagraph::new();
    let st1 = StyledText::new("First".to_string(), Style::new());
    let st2 = StyledText::new("Third".to_string(), Style::new());
    let st_ins = StyledText::new("Second".to_string(), Style::new().switch_italic());
    p.add(st1.clone());
    p.add(st2.clone());
    p.insert(1, st_ins.clone());

    assert_eq!(p.raw.len(), 3);
    assert_eq!(p.raw[0], st1);
    assert_eq!(p.raw[1], st_ins);
    assert_eq!(p.raw[2], st2);
}

#[test]
#[should_panic]
fn test_paragraph_insert_out_of_bounds() {
    let mut p = StyledParagraph::new();
    let st1 = StyledText::new("First".to_string(), Style::new());
    p.insert(1, st1);
}

#[test]
fn test_paragraph_modify_simple() {
    let mut p = StyledParagraph::new();
    let original_style = Style::new();
    let st1 = StyledText::new("This is a test.".to_string(), original_style.clone());
    p.add(st1);

    let bold_style = Style::new().switch_bold();
    let result = p.modify(bold_style.clone(), "is a");

    assert!(result.is_ok());
    assert_eq!(p.raw.len(), 3);

    assert_eq!(p.raw[0].text, "This ");
    assert_eq!(p.raw[0].style, original_style);

    assert_eq!(p.raw[1].text, "is a");
    assert_eq!(p.raw[1].style, bold_style);

    assert_eq!(p.raw[2].text, " test.");
    assert_eq!(p.raw[2].style, original_style);
}

#[test]
fn test_paragraph_modify_full_chunk_match() {

    let mut p = StyledParagraph::new();
    let original_style = Style::new();
    let st1 = StyledText::new("Part1 ".to_string(), original_style.clone());
    let st2 = StyledText::new("ModifyMe".to_string(), original_style.clone());
    let st3 = StyledText::new(" Part3".to_string(), original_style.clone());
    p.add(st1.clone());
    p.add(st2);
    p.add(st3.clone());

    let italic_style = Style::new().switch_italic();
    let result = p.modify(italic_style.clone(), "ModifyMe");

    assert!(result.is_ok());

    assert_eq!(p.raw.len(), 3);
    assert_eq!(p.raw[0], st1);

    assert_eq!(p.raw[1].text, "ModifyMe");
    assert_eq!(p.raw[1].style, italic_style);
    assert_eq!(p.raw[2], st3);
}

#[test]
fn test_paragraph_modify_start_of_chunk() {
    let mut p = StyledParagraph::new();
    let original_style = Style::new();
    let st1 = StyledText::new("Prefix suffix".to_string(), original_style.clone());
    p.add(st1);

    let bold_style = Style::new().switch_bold();
    let result = p.modify(bold_style.clone(), "Prefix");

    assert!(result.is_ok());

    assert_eq!(p.raw.len(), 2);

    assert_eq!(p.raw[0].text, "Prefix");
    assert_eq!(p.raw[0].style, bold_style);

    assert_eq!(p.raw[1].text, " suffix");
    assert_eq!(p.raw[1].style, original_style);
}

#[test]
fn test_paragraph_modify_end_of_chunk() {
    let mut p = StyledParagraph::new();
    let original_style = Style::new();
    let st1 = StyledText::new("Prefix suffix".to_string(), original_style.clone());
    p.add(st1);

    let bold_style = Style::new().switch_bold();
    let result = p.modify(bold_style.clone(), "suffix");

    assert!(result.is_ok());

    assert_eq!(p.raw.len(), 2);

    assert_eq!(p.raw[0].text, "Prefix ");
    assert_eq!(p.raw[0].style, original_style);

    assert_eq!(p.raw[1].text, "suffix");
    assert_eq!(p.raw[1].style, bold_style);
}

#[test]
fn test_paragraph_modify_chunk_not_found() {
    let mut p = StyledParagraph::new();
    let original_style = Style::new();
    let st1 = StyledText::new("Some text here.".to_string(), original_style.clone());
    p.add(st1.clone());

    let bold_style = Style::new().switch_bold();
    let result = p.modify(bold_style, "nonexistent");

    assert!(result.is_err());
    assert_eq!(
        result.unwrap_err(),
        ParagraphModifyError::ChunkNotFound("nonexistent".to_string())
    );

    assert_eq!(p.raw.len(), 1);
    assert_eq!(p.raw[0], st1);
}

#[test]
fn test_paragraph_modify_empty_chunk() {
    let mut p = StyledParagraph::new();
    let original_style = Style::new();
    let st1 = StyledText::new("Some text".to_string(), original_style.clone());
    p.add(st1.clone());

    let bold_style = Style::new().switch_bold();
    let result = p.modify(bold_style, "");

    assert!(result.is_err());
    assert_eq!(result.unwrap_err(), ParagraphModifyError::EmptyChunk);

    assert_eq!(p.raw.len(), 1);
    assert_eq!(p.raw[0], st1);
}
#[test]
fn test_paragraph_modify_spanning_two_segments() {
    let mut p = StyledParagraph::new();
    let style1 = Style::new()
        .change_font_color("#FF0000".to_string())
        .unwrap();
    let style2 = Style::new()
        .change_font_color("#0000FF".to_string())
        .unwrap();
    p.add(StyledText::new("Part1 ".to_string(), style1.clone()));
    p.add(StyledText::new("Part2".to_string(), style2.clone()));

    let bold_style = Style::new().switch_bold();
    let result = p.modify_spanning(bold_style.clone(), "t1 P");

    assert!(result.is_ok());
    assert_eq!(p.raw.len(), 3);

    assert_eq!(p.raw[0].text, "Par");
    assert_eq!(p.raw[0].style, style1);

    assert_eq!(p.raw[1].text, "t1 P");
    assert_eq!(p.raw[1].style, bold_style);

    assert_eq!(p.raw[2].text, "art2");
    assert_eq!(p.raw[2].style, style2);
}

#[test]
fn test_paragraph_modify_spanning_multiple_segments() {
    let mut p = StyledParagraph::new();
    let style1 = Style::new();
    let style2 = Style::new().switch_italic();
    let style3 = Style::new().change_size(14);
    p.add(StyledText::new("One ".to_string(), style1.clone()));
    p.add(StyledText::new("Two ".to_string(), style2.clone()));
    p.add(StyledText::new("Three".to_string(), style3.clone()));

    let bold_style = Style::new().switch_bold();
    let result = p.modify_spanning(bold_style.clone(), "ne Two Th");

    assert!(result.is_ok());
    assert_eq!(p.raw.len(), 3);

    assert_eq!(p.raw[0].text, "O");
    assert_eq!(p.raw[0].style, style1);

    assert_eq!(p.raw[1].text, "ne Two Th");
    assert_eq!(p.raw[1].style, bold_style);

    assert_eq!(p.raw[2].text, "ree");
    assert_eq!(p.raw[2].style, style3);
}

#[test]
fn test_paragraph_modify_spanning_starts_at_segment_beginning() {
    let mut p = StyledParagraph::new();
    let style1 = Style::new();
    let style2 = Style::new().switch_italic();
    p.add(StyledText::new("Start ".to_string(), style1.clone()));
    p.add(StyledText::new("End".to_string(), style2.clone()));

    let bold_style = Style::new().switch_bold();
    let result = p.modify_spanning(bold_style.clone(), "Start E");

    assert!(result.is_ok());
    assert_eq!(p.raw.len(), 2);

    assert_eq!(p.raw[0].text, "Start E");
    assert_eq!(p.raw[0].style, bold_style);

    assert_eq!(p.raw[1].text, "nd");
    assert_eq!(p.raw[1].style, style2);
}

#[test]
fn test_paragraph_modify_spanning_ends_at_segment_end() {
    let mut p = StyledParagraph::new();
    let style1 = Style::new();
    let style2 = Style::new().switch_italic();
    p.add(StyledText::new("Start ".to_string(), style1.clone()));
    p.add(StyledText::new("End".to_string(), style2.clone()));

    let bold_style = Style::new().switch_bold();
    let result = p.modify_spanning(bold_style.clone(), "rt End");

    assert!(result.is_ok());
    assert_eq!(p.raw.len(), 2);

    assert_eq!(p.raw[0].text, "Sta");
    assert_eq!(p.raw[0].style, style1);

    assert_eq!(p.raw[1].text, "rt End");
    assert_eq!(p.raw[1].style, bold_style);
}

#[test]
fn test_paragraph_modify_spanning_chunk_not_found() {
    let mut p = StyledParagraph::new();
    p.add(StyledText::new("Some ".to_string(), Style::new()));
    p.add(StyledText::new("text".to_string(), Style::new()));
    let original_raw = p.raw.clone();

    let bold_style = Style::new().switch_bold();
    let result = p.modify_spanning(bold_style, "nonexistent");

    assert!(result.is_err());
    assert_eq!(
        result.unwrap_err(),
        ParagraphModifyError::ChunkNotFound("nonexistent".to_string())
    );

    assert_eq!(p.raw, original_raw);
}

#[test]
fn test_paragraph_modify_spanning_empty_chunk() {
    let mut p = StyledParagraph::new();
    p.add(StyledText::new("Some text".to_string(), Style::new()));
    let original_raw = p.raw.clone();

    let bold_style = Style::new().switch_bold();
    let result = p.modify_spanning(bold_style, "");

    assert!(result.is_err());
    assert_eq!(result.unwrap_err(), ParagraphModifyError::EmptyChunk);

    assert_eq!(p.raw, original_raw);
}

#[test]
fn test_paragraph_modify_spanning_single_segment_case() {

    let mut p = StyledParagraph::new();
    let original_style = Style::new();
    let st1 = StyledText::new("This is a test.".to_string(), original_style.clone());
    p.add(st1);

    let bold_style = Style::new().switch_bold();
    let result = p.modify_spanning(bold_style.clone(), "is a");

    assert!(result.is_ok());
    assert_eq!(p.raw.len(), 3);
    assert_eq!(p.raw[0].text, "This ");
    assert_eq!(p.raw[0].style, original_style);
    assert_eq!(p.raw[1].text, "is a");
    assert_eq!(p.raw[1].style, bold_style);
    assert_eq!(p.raw[2].text, " test.");
    assert_eq!(p.raw[2].style, original_style);
}

#[test]
fn test_parse_as_raw_tagged_text() {
    let mut p = StyledParagraph::new();
    let style1 = Style::new();
    let style2 = Style::new()
        .switch_bold()
        .set_underline(Some(UnderlineStyle::Double));
    let st1 = StyledText::new("Plain ".to_string(), style1.clone());
    let st2 = StyledText::new("BoldUnderline".to_string(), style2.clone());
    p.add(st1);
    p.add(st2);

    let tag1 = style1.to_string();
    let tag2 = style2.to_string();
    let expected = format!(
        "[[{0}]]Plain [[/{0}]][[{1}]]BoldUnderline[[/{1}]]",
        tag1, tag2
    );

    assert_eq!(p.parse_as_raw_tagged_text(), expected);
}

#[test]
fn test_parse_as_raw_tagged_text_empty() {
    let p = StyledParagraph::new();
    assert_eq!(p.parse_as_raw_tagged_text(), "");
}
