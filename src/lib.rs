//! Runtime scalar algebra of a small game-scripting language, and the font
//! tables that its text rendering reads.
pub mod font;
pub mod value;
