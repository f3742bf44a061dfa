pub mod chars;
pub mod codes;
pub mod mode;
pub mod palette;
pub mod app;
pub mod ascii;
pub mod layout;
pub mod laws;
