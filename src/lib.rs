use vstd::prelude::*;

pub mod fields;
pub mod laws;
pub mod parser;
pub mod record;
pub mod stream;
pub mod text;

pub use fields::{parse_strand, update_from_s_line};
pub use parser::{get_maf_item, parse_block, LinesRef};
pub use stream::ItemParser;
pub use record::{Block, BlockSequence, MAFItem, ParseError, Strand};

verus! {

} // verus!
