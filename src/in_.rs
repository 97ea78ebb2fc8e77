pub mod audio;
pub mod term;
