pub mod env;
pub mod floats;
pub mod eval;
pub mod laws;
pub mod list;
pub mod scoped;
pub mod types;

pub use env::{BuiltInFunc, Callable, Env, Table, make_sym_table_val, make_value};
pub use eval::{apply, apply_macro, eval, get_sym_table_val, sym_table_is_var, table_test};
pub use list::{Cons, cons};
pub use scoped::SymTable;
pub use types::{
    EnvId, Lexeme, ParseFail, ParseResult, QuoteType, Sexps, arg_extract_bool, arg_extract_int,
    arg_extract_str, arg_extractor, char_to_quote, cons_to_sexps, err, quote_to_str, same_type,
    value_eq, value_partial_cmp,
};
