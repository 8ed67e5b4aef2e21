pub mod document;
