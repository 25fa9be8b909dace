pub mod errors;
pub mod expr;
pub mod parser;
pub mod seq;
pub mod token;

pub use expr::{BorrowedList, Expr, StrLit};
pub use parser::{parse, parse_expression, ParseMatch, ParseResult};
pub use seq::Sequence;
pub use token::{Delimiter, Span, Token};
