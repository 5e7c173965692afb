use hdx_ast::lexer::parser_for;
use hdx_ast::media_feature::{MediaFeature, MediaFeatureName, MediaKeyword};
use hdx_ast::writer::CssWriter;

fn rewrite_named(name: MediaFeatureName, css: &str, minify: bool) -> Option<String> {
    let mut p = parser_for(css).ok()?;
    let f = MediaFeature::parse_named(&mut p, name).ok()?;
    p.expect_end().ok()?;
    let mut w = CssWriter::new(minify);
    f.write_body(&mut w);
    Some(w.text())
}

fn assert_round_trip(css: &str) {
    assert_eq!(rewrite_named(MediaFeatureName::PrefersReducedData, css, false).as_deref(), Some(css));
}

#[test]
fn prefers_reduced_data_test_writes() {
    assert_round_trip("prefers-reduced-data");
    assert_round_trip("prefers-reduced-data:no-preference");
    assert_round_trip("prefers-reduced-data:reduce");
}

#[test]
fn test_errors() {
    assert_eq!(rewrite_named(MediaFeatureName::PrefersReducedData, "prefers-reduced-data:", false), None);
    assert_eq!(rewrite_named(MediaFeatureName::PrefersReducedData, "prefers-reduced-data: reduced", false), None);
}

#[test]
fn feature_space_after_colon_is_kept_then_minified_away() {
    let css = "(prefers-reduced-motion: reduce)";
    let mut p = parser_for(css).unwrap();
    let f = MediaFeature::parse(&mut p).unwrap();
    assert_eq!(f.value, Some(MediaKeyword::Reduce));
    assert!(f.gap);
    let mut w = CssWriter::new(false);
    f.write_css(&mut w);
    assert_eq!(w.text(), css);
    let mut m = CssWriter::new(true);
    f.write_css(&mut m);
    assert_eq!(m.text(), "(prefers-reduced-motion:reduce)");
}

#[test]
fn feature_name_is_case_insensitive_and_written_lower_case() {
    let mut p = parser_for("(HOVER: Hover)").unwrap();
    let f = MediaFeature::parse(&mut p).unwrap();
    assert_eq!(f.name, MediaFeatureName::Hover);
    let mut w = CssWriter::new(true);
    f.write_css(&mut w);
    assert_eq!(w.text(), "(hover:hover)");
}

#[test]
fn feature_keyword_of_another_feature_is_refused() {
    let mut p = parser_for("(hover: coarse)").unwrap();
    assert!(MediaFeature::parse(&mut p).is_err());
}

#[test]
fn range_feature_value_is_unimplemented() {
    let mut p = parser_for("(width: none)").unwrap();
    assert!(matches!(MediaFeature::parse(&mut p), Err(hdx_ast::diagnostics::ParseError::Unimplemented(_))));
}

#[test]
fn unknown_feature_name_is_refused() {
    let mut p = parser_for("(colour)").unwrap();
    assert!(matches!(MediaFeature::parse(&mut p), Err(hdx_ast::diagnostics::ParseError::UnexpectedIdent(_))));
}
