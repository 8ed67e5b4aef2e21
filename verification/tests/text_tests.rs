use edda_core::stylemgr::structural::ApplicableStyles;
use edda_core::stylemgr::style::{FontLookup, Style, StyleError, UnderlineStyle};
use edda_core::stylemgr::text::StyledText;

#[test]
fn test_styled_text_new() {
    let style = Style::default().switch_bold();
    let text = "Hello".to_string();
    let st = StyledText::new(text.clone(), style.clone());

    assert_eq!(st.text, text);
    assert!(st.style.bold());
    assert!(!st.style.italic());
}

#[test]
fn test_styled_text_default() {
    let st = StyledText::default();
    assert_eq!(st.text, "");
    assert!(!st.style.bold());
    assert!(!st.style.italic());
    assert_eq!(st.style.size(), 11);
    assert_eq!(st.style.font(), "Arial");
    assert_eq!(st.style.font_color(), "#000000");
}

#[test]
fn test_apply_style_tagging() {
    let style = Style::default().switch_bold().change_size(14);
    let text = "World".to_string();
    let st = StyledText::new(text.clone(), style);

    let expected_tag = "bold;pt(14);Arial;fc(#000000)";
    let expected_output = format!("[[{}]]{}[[/{}]]", expected_tag, text, expected_tag);

    assert_eq!(st.apply_style_tagging(), expected_output);
}

#[test]
fn test_change_style_simple() {
    let mut st = StyledText::new("Test".to_string(), Style::default());

    assert!(!st.style.bold());
    let result = st.change_style(ApplicableStyles::Bold);
    assert!(result.is_ok());
    assert!(st.style.bold());

    assert!(!st.style.italic());
    let result = st.change_style(ApplicableStyles::Italic);
    assert!(result.is_ok());
    assert!(st.style.italic());
    assert!(st.style.bold());

    assert_eq!(st.style.size(), 11);
    let result = st.change_style(ApplicableStyles::Size(16));
    assert!(result.is_ok());
    assert_eq!(st.style.size(), 16);
}

#[test]
fn test_change_style_color_valid() {
    let mut st = StyledText::new("Color".to_string(), Style::default());
    let result = st.change_style(ApplicableStyles::Color("#112233".to_string()));
    assert!(result.is_ok());
    assert_eq!(st.style.font_color(), "#112233");
}

#[test]
fn test_change_style_color_invalid() {
    let mut st = StyledText::new("Color".to_string(), Style::default());
    let original_color = st.style.font_color().to_string();

    let result = st.change_style(ApplicableStyles::Color("InvalidHex".to_string()));
    assert!(result.is_err());
    assert_eq!(st.style.font_color(), original_color);
    assert!(matches!(result.unwrap_err(), StyleError::InvalidHexColor(_)));
}

#[test]
fn test_change_style_font_invalid() {
    let mut st = StyledText::new("Font".to_string(), Style::default());
    let original_font = st.style.font().to_string();

    let result = st.change_style(ApplicableStyles::Font(
        "DefinitelyNotAFontName123".to_string(),
    ));
    assert!(result.is_err());
    assert_eq!(st.style.font(), original_font);
    assert!(matches!(result.unwrap_err(), StyleError::FontNotFound(_)));
}

#[test]
fn test_apply_to_raw_runs() {
    let st = StyledText::new("Test Run".to_string(), Style::default());
    let _run = st.apply_to_raw();
    assert!(std::any::TypeId::of::<docx_rs::Run>() == std::any::TypeId::of::<docx_rs::Run>());
}

#[test]
fn test_change_style_underline() {
    let mut st = StyledText::new("Underline".to_string(), Style::default());

    assert_eq!(st.style.underline(), None);
    let result = st.change_style(ApplicableStyles::Underline(Some(UnderlineStyle::Double)));
    assert!(result.is_ok());
    assert_eq!(st.style.underline(), Some(&UnderlineStyle::Double));
}

#[test]
fn change_style_with_a_given_answer() {
    let mut st = StyledText::new("Font".to_string(), Style::default());
    let before = st.clone();
    let refused = st.change_style_with_lookup(
        ApplicableStyles::Font("Fancy".to_string()),
        FontLookup::NotFound,
    );
    assert!(matches!(refused, Err(StyleError::FontNotFound(name)) if name == "Fancy"));
    assert_eq!(st, before);

    let done = st.change_style_with_lookup(
        ApplicableStyles::Font("Fancy".to_string()),
        FontLookup::Found,
    );
    assert!(done.is_ok());
    assert_eq!(st.style.font(), "Fancy");
    assert_eq!(st.text, "Font");

    let done = st.change_style_with_lookup(
        ApplicableStyles::Highlight(Some("#FFFF00".to_string())),
        FontLookup::NotFound,
    );
    assert!(done.is_ok());
    assert_eq!(st.style.highlight_color(), Some("#FFFF00"));
    let refused = st.change_style(ApplicableStyles::Highlight(Some("yellow".to_string())));
    assert!(matches!(refused, Err(StyleError::InvalidHexColor(c)) if c == "yellow"));
    assert_eq!(st.style.highlight_color(), Some("#FFFF00"));
    assert!(st.change_style(ApplicableStyles::Highlight(None)).is_ok());
    assert_eq!(st.style.highlight_color(), None);
}

#[test]
fn run_descriptor_strips_hash_and_names_underline() {
    let style = Style::new()
        .switch_bold()
        .set_underline(Some(UnderlineStyle::DashDotDotHeavy))
        .change_size(20)
        .change_font_color("#FF00AA".to_string())
        .unwrap()
        .change_font_highlight(Some("#00FF0080".to_string()))
        .unwrap();
    let d = StyledText::new("Grüße".to_string(), style).to_run_descriptor();
    assert_eq!(d.text, "Grüße");
    assert!(d.bold);
    assert!(!d.italic);
    assert_eq!(d.underline.as_deref(), Some("dashDotDotHeavy"));
    assert_eq!(d.size, 20);
    assert_eq!(d.font, "Arial");
    assert_eq!(d.font_color, "FF00AA");
    assert_eq!(d.highlight_color.as_deref(), Some("00FF0080"));

    let plain = StyledText::default().to_run_descriptor();
    assert_eq!(plain.font_color, "000000");
    assert_eq!(plain.underline, None);
    assert_eq!(plain.highlight_color, None);
    assert_eq!(plain.size, 11);
}

#[test]
fn raw_run_carries_the_descriptor() {
    let style = Style::new().switch_italic().change_size(9);
    let run = StyledText::new("abc".to_string(), style).apply_to_raw();
    let expected = docx_rs::Run::new()
        .add_text("abc")
        .fonts(docx_rs::RunFonts::new().ascii("Arial"))
        .size(9)
        .color("000000")
        .italic();
    assert_eq!(run, expected);
    assert_ne!(run, docx_rs::Run::new());
}
