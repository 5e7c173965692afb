use hdx_ast::lexer::parser_for;
use hdx_ast::margin_trim::MarginTrim;
use hdx_ast::writer::CssWriter;

fn full(css: &str) -> Option<MarginTrim> {
    let mut p = parser_for(css).ok()?;
    let v = MarginTrim::parse(&mut p).ok()?;
    p.expect_end().ok()?;
    Some(v)
}

fn text(v: &MarginTrim) -> String {
    let mut w = CssWriter::new(false);
    v.write_css(&mut w);
    w.text()
}

#[test]
fn margin_trim_size_test() {
    assert_eq!(std::mem::size_of::<MarginTrim>(), 1);
}

#[test]
fn all_four_sides_are_the_combined_value() {
    let v = full("block-start block-end inline-start inline-end").unwrap();
    assert_eq!(v, MarginTrim::all());
    assert!(v.is_all());
    assert_eq!(text(&v), "block-start block-end inline-start inline-end");
    assert_eq!(full("inline-end block-start inline-start block-end"), Some(MarginTrim::all()));
}

#[test]
fn nothing_may_follow_a_terminal_value() {
    assert_eq!(full("block"), Some(MarginTrim::block()));
    assert_eq!(full("inline"), Some(MarginTrim::inline()));
    assert_eq!(full("block inline"), None);
    assert_eq!(full("block block-start"), None);
    assert_eq!(full("block-start block-end inline-start inline-end block-start"), None);
}

#[test]
fn sides_write_in_fixed_order() {
    let v = full("inline-end block-start").unwrap();
    assert_eq!(text(&v), "block-start inline-end");
    assert_eq!(full(&text(&v)), Some(v));
    assert!(v.contains(MarginTrim { bits: 4 }));
    assert!(!v.intersects(MarginTrim { bits: 8 }));
}

#[test]
fn duplicate_side_is_refused() {
    let mut p = parser_for("block-start block-start").unwrap();
    assert!(matches!(
        MarginTrim::parse(&mut p),
        Err(hdx_ast::diagnostics::ParseError::UnexpectedDuplicateIdent(_))
    ));
}

#[test]
fn empty_set_writes_nothing() {
    assert_eq!(text(&MarginTrim::none()), "");
    assert_eq!(full("none"), None);
}
