pub mod base64;
pub mod case;
pub mod count;
pub mod count_words;
pub mod formats;
pub mod hash;
pub mod lines;
pub mod misc;
