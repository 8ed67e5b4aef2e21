pub mod structural;
pub mod style;
pub mod text;
