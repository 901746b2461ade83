use vstd::prelude::*;

pub mod text;
pub mod editor;
pub mod search;
pub mod keys;
pub mod tokenizer;
pub mod frame;
pub mod laws;

verus! {

/// Color class of a token produced by the line tokenizer.
#[derive(Clone, Copy, Debug, PartialEq, Eq, Structural)]
pub enum ColorClass {
    Comment,
    Str,
    Number,
    Keyword,
    Type,
    Plain,
}

} // verus!
