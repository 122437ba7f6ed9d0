//! Document model for line-oriented, case-insensitive keyword/block input
//! files: free-form blocks, `name : value` entries and bare keywords, kept in
//! a lower-cased lookup table and rendered back in declaration order.
mod block;
mod cell_object;
mod error;
mod keyword_value;
mod laws;
mod parser;
mod text;

pub use block::{block_text, Block, BlockIO};
pub use cell_object::{name_of, object_text, order_of, CELLObject, ObjectView};
pub use error::{message_of, CellParseError};
pub use keyword_value::{keyword_value_text, KeywordValue, SingleKeyword, VALUE_WIDTH};
pub use laws::{
    lemma_doc_keys, lemma_last_write_wins, lemma_order_dense, lemma_round_trip_blocks,
    lemma_sort_by_order,
};
pub use parser::{
    declared, doc_of, entries_map, insert_by_order, keys_unique, lemma_table_elements,
    names_distinct, objs_view, pair_name, pair_object, sort_by_order, sorted_by_order, texts,
    CELLParser, CellPair, OrderedCellDoc, OrderedParamDoc, ParsedCellDoc,
};
pub use text::{join, join_strings, lower_of, lowercase, right_justify, strs_view};
