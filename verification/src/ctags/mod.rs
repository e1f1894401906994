//! Reading ctags output: the grammar of one tag line, the rules that find a
//! declared type in it, and the parser that assembles classes from lines.

pub mod ctags_parser;
pub mod finalize;
pub mod tag_entry;
pub mod tag_line;
pub mod type_rules;
