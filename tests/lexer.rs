use hdx_ast::lexer::{parser_for, tokenize};
use hdx_ast::text::chars_of;
use hdx_ast::token::{Number, Token};
use hdx_ast::writer::CssWriter;

#[test]
fn tokens_tile_the_input() {
    let src = chars_of("@media (x: 1.5em) /* c */ {'a'}");
    let toks = tokenize(&src).unwrap();
    assert!(matches!(toks.last().unwrap().node, Token::Eof));
    let mut at = 0;
    for t in &toks[..toks.len() - 1] {
        assert_eq!(t.span.start, at);
        at = t.span.end;
    }
    assert_eq!(at, src.len());
    assert!(matches!(toks[0].node, Token::AtKeyword(_)));
    assert!(toks.iter().any(|t| matches!(t.node, Token::Comment)));
    assert!(toks.iter().any(|t| matches!(t.node, Token::Str(_))));
}

#[test]
fn numbers_keep_their_digits() {
    for (src, out) in [("0", "0"), ("1.50", "1.50"), ("-2.25", "-2.25"), ("+7", "7"), (".5", "0.5"), ("-0", "0")] {
        let toks = tokenize(&chars_of(src)).unwrap();
        let n = match toks[0].node {
            Token::Number(n) => n,
            _ => panic!("expected a number"),
        };
        let mut w = CssWriter::new(false);
        n.write_css(&mut w);
        assert_eq!(w.text(), out);
    }
}

#[test]
fn packed_number_fields() {
    let n = Number::new(true, 1234, 2);
    assert!(n.is_negative());
    assert_eq!(n.mantissa_exec(), 1234);
    assert_eq!(n.scale_exec(), 2);
    let mut w = CssWriter::new(true);
    n.write_css(&mut w);
    assert_eq!(w.text(), "-12.34");
}

#[test]
fn overlong_number_is_refused() {
    assert!(matches!(
        tokenize(&chars_of("1234567890123")),
        Err(hdx_ast::diagnostics::ParseError::UnknownValue(_))
    ));
    assert!(tokenize(&chars_of("0.1234567890123456")).is_err());
}

#[test]
fn identifier_text_is_one_token() {
    let p = parser_for("block-start").unwrap();
    match p.cur() {
        Token::Ident(a) => assert_eq!(a.iter().collect::<String>(), "block-start"),
        _ => panic!("expected an identifier"),
    }
    assert!(matches!(p.peek(), Token::Eof));
}

#[test]
fn function_and_at_keyword_tokens() {
    let toks = tokenize(&chars_of("@media fit-content(1px)")).unwrap();
    assert!(matches!(&toks[0].node, Token::AtKeyword(a) if a.iter().collect::<String>() == "media"));
    assert!(matches!(&toks[2].node, Token::Function(f) if f.iter().collect::<String>() == "fit-content"));
    assert!(matches!(&toks[3].node, Token::Dimension(_, u) if u.iter().collect::<String>() == "px"));
    assert!(matches!(toks[4].node, Token::RightParen));
}
