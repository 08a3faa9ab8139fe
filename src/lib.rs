pub mod image;
pub mod save;
pub mod scan;
