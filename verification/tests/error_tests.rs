use edda_core::stylemgr::structural::ParagraphModifyError;
use edda_core::stylemgr::style::{query_failure_message, StyleError};
use font_kit::error::SelectionError;

#[test]
fn style_error_messages() {
    assert_eq!(
        StyleError::InvalidHexColor("red".to_string()).to_string(),
        "Invalid HEX color format: 'red'"
    );
    assert_eq!(
        StyleError::FontNotFound("Nope".to_string()).to_string(),
        "Font not found: 'Nope'"
    );
    let cause = SelectionError::CannotAccessSource { reason: None };
    assert_eq!(
        StyleError::FontQueryError("Nope".to_string(), cause).to_string(),
        "Failed to query system fonts for 'Nope': failed to access source"
    );
    assert_eq!(
        StyleError::FontQueryError("Nope".to_string(), SelectionError::NotFound).to_string(),
        "Failed to query system fonts for 'Nope': no font found"
    );
    assert_eq!(
        query_failure_message("a", "b"),
        "Failed to query system fonts for 'a': b"
    );
}

#[test]
fn modify_error_messages() {
    assert_eq!(
        ParagraphModifyError::ChunkNotFound("abc".to_string()).to_string(),
        "Chunk to modify not found in paragraph: 'abc'"
    );
    assert_eq!(
        ParagraphModifyError::EmptyChunk.to_string(),
        "Cannot modify paragraph with an empty chunk"
    );
}
