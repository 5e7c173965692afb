use hdx_ast::font_family::FontFamily;
use hdx_ast::lexer::parser_for;
use hdx_ast::writer::CssWriter;

fn rewrite(css: &str, minify: bool) -> String {
    let mut p = parser_for(css).unwrap();
    let v = FontFamily::parse(&mut p).unwrap();
    p.expect_end().unwrap();
    let mut w = CssWriter::new(minify);
    v.node.write_css(&mut w);
    w.text()
}

#[test]
fn font_family_test_writes() {
    assert_eq!(rewrite("serif", true), "serif");
    assert_eq!(rewrite("Arial, sans-serif", true), "\"Arial\",sans-serif");
    assert_eq!(
        rewrite("'Gill Sans MS', Arial, system-ui, sans-serif", true),
        "\"Gill Sans MS\",\"Arial\",system-ui,sans-serif"
    );
}

#[test]
fn font_family_canonical_keeps_space_after_comma() {
    assert_eq!(rewrite("Arial, SANS-SERIF", false), "\"Arial\", sans-serif");
    assert_eq!(rewrite("generic(fangsong), serif", false), "generic(fangsong), serif");
}

#[test]
fn font_family_refuses_a_number() {
    let mut p = parser_for("12px").unwrap();
    assert!(FontFamily::parse(&mut p).is_err());
}
