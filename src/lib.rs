pub mod charset;
pub mod diagnostics;
pub mod parser;
pub mod span;
pub mod text;
pub mod token;
pub mod writer;
pub mod media_feature;
pub mod media;
pub mod margin_trim;
pub mod number;
pub mod line_width;
pub mod border_width;
pub mod lexer;
pub mod values;
pub mod font_family;
pub mod border;
