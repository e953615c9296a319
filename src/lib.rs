//! Small verified text utilities: an IPA to Anglo-Saxon runes transliterator
//! (normalize, tokenize, map, render), terminal text effects, a spinner, box
//! layout for a message screen, sign-list readers for Egyptian hieroglyphs,
//! and word-sized number theory.

pub mod ansi;
pub mod convert;
pub mod layout;
pub mod normalize;
pub mod numeric;
pub mod runes;
pub mod signlist;
pub mod spinner;
pub mod termfx;
pub mod text;
pub mod tokenize;
pub mod unicode_blocks;
