use vstd::prelude::*;

pub mod ast;
pub mod lexer;
pub mod parser;
pub mod text;
pub mod sqlgen;
pub mod table;

verus! {

} // verus!
