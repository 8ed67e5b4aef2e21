pub mod chars;
pub mod docx;
pub mod filemgr;
pub mod stylemgr;
