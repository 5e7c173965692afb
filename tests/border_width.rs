use hdx_ast::border_width::{
    BorderBlockEndWidth, BorderBlockStartWidth, BorderBlockWidth, BorderBottomWidth, BorderInlineEndWidth,
    BorderInlineStartWidth, BorderInlineWidth, BorderLeftWidth, BorderRightWidth, BorderTopWidth, BorderWidth,
};
use hdx_ast::lexer::parser_for;
use hdx_ast::line_width::LineWidth;
use hdx_ast::writer::CssWriter;

fn width(css: &str) -> BorderWidth {
    let mut p = parser_for(css).unwrap();
    let v = BorderWidth::parse(&mut p).unwrap();
    p.expect_end().unwrap();
    v
}

fn width_text(v: &BorderWidth, minify: bool) -> String {
    let mut w = CssWriter::new(minify);
    v.write_css(&mut w);
    w.text()
}

fn block(css: &str) -> BorderBlockWidth {
    let mut p = parser_for(css).unwrap();
    let v = BorderBlockWidth::parse(&mut p).unwrap();
    p.expect_end().unwrap();
    v
}

fn block_text(v: &BorderBlockWidth, minify: bool) -> String {
    let mut w = CssWriter::new(minify);
    v.write_css(&mut w);
    w.text()
}

fn inline_text(css: &str) -> String {
    let mut p = parser_for(css).unwrap();
    let v = BorderInlineWidth::parse(&mut p).unwrap();
    p.expect_end().unwrap();
    let mut w = CssWriter::new(false);
    v.write_css(&mut w);
    w.text()
}

fn assert_minify(css: &str, expected: &str) {
    assert_eq!(width_text(&width(css), true), expected);
}

#[test]
fn border_width_size_test() {
    assert_eq!(std::mem::size_of::<BorderWidth>(), 32);
    assert_eq!(std::mem::size_of::<BorderBlockStartWidth>(), 8);
    assert_eq!(std::mem::size_of::<BorderBlockEndWidth>(), 8);
    assert_eq!(std::mem::size_of::<BorderInlineStartWidth>(), 8);
    assert_eq!(std::mem::size_of::<BorderInlineEndWidth>(), 8);
    assert_eq!(std::mem::size_of::<BorderTopWidth>(), 8);
    assert_eq!(std::mem::size_of::<BorderRightWidth>(), 8);
    assert_eq!(std::mem::size_of::<BorderLeftWidth>(), 8);
    assert_eq!(std::mem::size_of::<BorderBottomWidth>(), 8);
}

#[test]
fn border_width_test_writes() {
    let mut p = parser_for("medium").unwrap();
    let left = BorderLeftWidth::parse(&mut p).unwrap();
    let mut w = CssWriter::new(false);
    left.write_css(&mut w);
    assert_eq!(w.text(), "medium");
    assert_eq!(block_text(&block("1px 1px"), false), "1px 1px");
    assert_eq!(block_text(&block("1px 2px"), false), "1px 2px");
    assert_eq!(inline_text("1px 1px"), "1px 1px");
    assert_eq!(inline_text("1px 2px"), "1px 2px");
    for css in ["1px 1px 1px 1px", "1px 2px 1px 2px", "1px 2px 3px 4px", "thick medium thin 0"] {
        assert_eq!(width_text(&width(css), false), css);
    }
}

#[test]
fn border_width_test_minify() {
    assert_minify("1px 1px", "1px");
    assert_minify("1px 1px 1px", "1px");
    assert_minify("1px 1px 1px 1px", "1px");
    assert_minify("thick medium thick medium", "thick medium");
    assert_minify("1px 2px 1px", "1px 2px");
    assert_minify("1px 2px medium 2px", "1px 2px medium");
}

#[test]
fn fill_rule_for_each_arity() {
    let one = width("1px");
    assert_eq!(one, width("1px 1px 1px 1px"));
    let two = width("1px 2px");
    assert_eq!(two, width("1px 2px 1px 2px"));
    let three = width("1px 2px 3px");
    assert_eq!(three, width("1px 2px 3px 2px"));
    let four = width("thick medium thin 0");
    assert_eq!(four.0 .0, LineWidth::Thick);
    assert_eq!(four.1 .0, LineWidth::Medium);
    assert_eq!(four.2 .0, LineWidth::Thin);
    assert_eq!(width_text(&four, true), "thick medium thin 0");
}

#[test]
fn minify_is_idempotent_and_not_longer() {
    for css in ["1px", "1px 2px", "1px 2px 1px", "1px 2px 3px", "1px 2px 3px 4px", "thin thin thin thin", "0 1.50em"] {
        let v = width(css);
        let once = width_text(&v, true);
        let again = width_text(&width(&once), true);
        assert_eq!(once, again);
        assert!(once.len() <= width_text(&v, false).len());
        assert_eq!(width(&once), v);
    }
}

#[test]
fn axis_minifies_equal_sides() {
    assert_eq!(block_text(&block("2em 2em"), true), "2em");
    assert_eq!(block_text(&block("2em"), false), "2em 2em");
    assert_eq!(block_text(&block("2em 3em"), true), "2em 3em");
}

#[test]
fn fifth_value_is_left_over() {
    let mut p = parser_for("1px 2px 3px 4px 5px").unwrap();
    assert!(BorderWidth::parse(&mut p).is_ok());
    assert!(matches!(p.expect_end(), Err(hdx_ast::diagnostics::ParseError::ExpectedEnd(_))));
}

#[test]
fn negative_width_is_refused() {
    let mut p = parser_for("-1px").unwrap();
    assert!(BorderWidth::parse(&mut p).is_err());
    let mut p = parser_for("3").unwrap();
    assert!(BorderWidth::parse(&mut p).is_err());
    let mut p = parser_for("1furlong").unwrap();
    assert!(BorderWidth::parse(&mut p).is_err());
}

#[test]
fn units_and_keywords_ignore_case() {
    assert_eq!(width_text(&width("1PX THICK"), false), "1px thick 1px thick");
}
