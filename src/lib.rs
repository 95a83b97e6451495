//! Mines structural facts out of C-like source text by lexical matching and
//! renders them into text through a small tag language.
pub mod calls;
pub mod facts;
pub mod ident;
pub mod lexical;
pub mod merge;
pub mod naming;
pub mod parser;
pub mod paths;
pub mod render;
pub mod scope;
pub mod signature;
pub mod statics;
pub mod text;

pub use facts::{Function, Include, NestedCall, StaticVariable, Typedefs};
pub use merge::merge_with_manual_sections;
pub use parser::Parser;
pub use render::generate;
