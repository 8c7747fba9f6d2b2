pub mod text;
pub mod numbers;
pub mod constants;
pub mod errors;
pub mod encoder;
pub mod lexer;
pub mod language;
pub mod namemap;
pub mod parser;
pub mod preprocessor;
pub mod model;
pub mod compiler;
pub mod formatter;
pub mod linter;
pub mod checksum;
pub mod laws;
pub mod command_laws;
pub mod folding_range;
pub mod text_edit;
pub mod on_type_formatting;
pub mod semantic_tokens;
pub mod code_actions;
pub mod completions;
pub mod document_formatting;
pub mod hover;
pub mod code_lens;
pub mod diagnostics;
pub mod document_symbol;
pub mod call_hierarchy;
pub mod references;
pub mod rename;
pub mod document_highlight;
pub mod definition;
pub mod linked_editing;
pub mod selection_range;
pub mod range_formatting;
pub mod signature_help;
pub mod inlay_hints;
pub mod server;
