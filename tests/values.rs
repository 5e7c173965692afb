use hdx_ast::lexer::parser_for;
use hdx_ast::values::{MaxWidth, SizingKeyword, Visibility, Zoom};
use hdx_ast::writer::CssWriter;

fn max_width_text(css: &str) -> String {
    let mut p = parser_for(css).unwrap();
    let v = MaxWidth::parse(&mut p).unwrap();
    p.expect_end().unwrap();
    let mut w = CssWriter::new(false);
    v.write_css(&mut w);
    w.text()
}

fn zoom(css: &str) -> Option<Zoom> {
    let mut p = parser_for(css).ok()?;
    let v = Zoom::parse(&mut p).ok()?;
    p.expect_end().ok()?;
    Some(v)
}

#[test]
fn visibility_size_test() {
    assert_eq!(std::mem::size_of::<Visibility>(), 1);
}

#[test]
fn visibility_test_writes() {
    let mut p = parser_for("visible").unwrap();
    let v = Visibility::parse(&mut p).unwrap();
    p.expect_end().unwrap();
    let mut w = CssWriter::new(false);
    v.write_css(&mut w);
    assert_eq!(w.text(), "visible");
}

#[test]
fn zoom_size_test() {
    assert_eq!(std::mem::size_of::<Zoom>(), 8);
}

#[test]
fn max_width_size_test() {
    assert_eq!(std::mem::size_of::<MaxWidth>(), 12);
}

#[test]
fn max_width_test_writes() {
    for css in ["0", "1px", "none", "fit-content", "fit-content(20rem)", "fit-content(0)"] {
        assert_eq!(max_width_text(css), css);
    }
}

#[test]
fn max_width_keywords_and_refusals() {
    let mut p = parser_for("MIN-CONTENT").unwrap();
    assert_eq!(MaxWidth::parse(&mut p).unwrap(), MaxWidth::Keyword(SizingKeyword::MinContent));
    let mut p = parser_for("-1px").unwrap();
    assert!(MaxWidth::parse(&mut p).is_err());
    let mut p = parser_for("fit-content(20rem").unwrap();
    assert!(MaxWidth::parse(&mut p).is_err());
    assert_eq!(max_width_text("50%"), "50%");
}

#[test]
fn zoom_values_write_back() {
    for css in ["normal", "reset", "1.5", "150%", "0"] {
        let v = zoom(css).unwrap();
        let mut w = CssWriter::new(false);
        v.write_css(&mut w);
        assert_eq!(w.text(), css);
    }
    assert_eq!(zoom("auto"), None);
}

#[test]
fn visibility_keywords_resolve_in_any_case() {
    let mut p = parser_for("Collapse").unwrap();
    assert_eq!(Visibility::parse(&mut p).unwrap(), Visibility::Collapse);
    let mut p = parser_for("shown").unwrap();
    assert!(Visibility::parse(&mut p).is_err());
}
