use hdx_ast::charset::CharsetRule;
use hdx_ast::lexer::parser_for;
use hdx_ast::text::chars_of;
use hdx_ast::writer::CssWriter;

fn rewrite(css: &str, minify: bool) -> String {
    let mut p = parser_for(css).unwrap();
    let rule = CharsetRule::parse(&mut p).unwrap();
    p.expect_end().unwrap();
    let mut w = CssWriter::new(minify);
    rule.node.write_css(&mut w);
    w.text()
}

#[test]
fn charset_size_test() {
    assert_eq!(std::mem::size_of::<CharsetRule>(), 1);
}

#[test]
fn charset_test_writes() {
    assert_eq!(rewrite("@charset \"utf-8\";", true), "@charset \"utf-8\";");
    assert_eq!(rewrite("@charset \"UTF-8\";", true), "@charset \"utf-8\";");
}

#[test]
fn charset_mixed_case_resolves_like_lower_case() {
    let upper = CharsetRule::from_atom(&chars_of("UTF-8"));
    let lower = CharsetRule::from_atom(&chars_of("utf-8"));
    assert_eq!(upper, Some(CharsetRule::Utf8));
    assert_eq!(upper, lower);
    assert_eq!(CharsetRule::Utf8.to_atom(), "utf-8");
}

#[test]
fn charset_every_name_resolves_back() {
    let all = [
        CharsetRule::Utf8, CharsetRule::UsAscii, CharsetRule::Iso88591, CharsetRule::Iso88592,
        CharsetRule::Iso88593, CharsetRule::Iso88594, CharsetRule::Iso88595, CharsetRule::Iso88596,
        CharsetRule::Iso88597, CharsetRule::Iso88598, CharsetRule::Iso88599, CharsetRule::Iso885910,
        CharsetRule::ShiftJis, CharsetRule::EucJp, CharsetRule::Iso2022Kr, CharsetRule::EucKr,
        CharsetRule::Iso2022Jp, CharsetRule::Iso2022Jp2, CharsetRule::Iso88596E, CharsetRule::Iso88596I,
        CharsetRule::Iso88598E, CharsetRule::Iso88598I, CharsetRule::Gb2312, CharsetRule::Big5,
        CharsetRule::Koi8R,
    ];
    for c in all {
        assert_eq!(CharsetRule::from_atom(&chars_of(c.to_atom())), Some(c));
        assert_eq!(CharsetRule::from_atom(&chars_of(&c.to_atom().to_uppercase())), Some(c));
    }
}

#[test]
fn charset_unknown_name_is_refused() {
    let mut p = parser_for("@charset \"latin-9\";").unwrap();
    assert!(matches!(CharsetRule::parse(&mut p), Err(hdx_ast::diagnostics::ParseError::UnexpectedCharset(_))));
}

#[test]
fn charset_error_points_at_the_name() {
    let mut p = parser_for("@charset \"latin-9\";").unwrap();
    let e = CharsetRule::parse(&mut p).unwrap_err();
    assert_eq!(e.span(), hdx_ast::span::Span { start: 9, end: 18 });
}

#[test]
fn charset_needs_space_after_keyword() {
    let mut p = parser_for("@charset\"utf-8\";").unwrap();
    assert!(matches!(CharsetRule::parse(&mut p), Err(hdx_ast::diagnostics::ParseError::Unexpected(_))));
}

#[test]
fn charset_needs_semicolon() {
    let mut p = parser_for("@charset \"utf-8\"").unwrap();
    assert!(CharsetRule::parse(&mut p).is_err());
}
