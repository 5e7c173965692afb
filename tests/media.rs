use hdx_ast::lexer::parser_for;
use hdx_ast::media::{MediaCondition, MediaQuery, MediaQueryList, MediaRule, MediaRules, MediaType};
use hdx_ast::media_feature::MediaFeature;
use hdx_ast::writer::CssWriter;

fn query(css: &str) -> MediaQuery {
    let mut p = parser_for(css).unwrap();
    let q = MediaQuery::parse(&mut p).unwrap();
    p.expect_end().unwrap();
    q
}

fn query_text(q: &MediaQuery, minify: bool) -> String {
    let mut w = CssWriter::new(minify);
    q.write_css(&mut w);
    w.text()
}

fn assert_query(css: &str) {
    assert_eq!(query_text(&query(css), false), css);
}

fn rule_text(css: &str, minify: bool) -> String {
    let mut p = parser_for(css).unwrap();
    let r = MediaRule::parse(&mut p).unwrap();
    p.expect_end().unwrap();
    let mut w = CssWriter::new(minify);
    r.write_css(&mut w);
    w.text()
}

#[test]
fn mod_test_writes() {
    assert_query("print");
    assert_query("not embossed");
    assert_query("only screen");
    let mut p = parser_for("(grid)").unwrap();
    let f = MediaFeature::parse(&mut p).unwrap();
    let mut w = CssWriter::new(false);
    f.write_css(&mut w);
    assert_eq!(w.text(), "(grid)");
    let mut p = parser_for("and (grid)").unwrap();
    let c = MediaCondition::parse(&mut p).unwrap();
    let mut w = CssWriter::new(false);
    c.write_css(&mut w);
    assert_eq!(w.text(), "and (grid)");
    assert_query("screen and (grid)");
    assert_query("screen and (hover) and (pointer)");
    assert_eq!(rule_text("@media print {\n\n}", false), "@media print {\n\n}");
    assert_eq!(
        rule_text("@media print, (prefers-reduced-motion: reduce) {\n\n}", false),
        "@media print, (prefers-reduced-motion: reduce) {\n\n}"
    );
}

#[test]
fn mod_test_minify() {
    assert_eq!(rule_text("@media print {}", true), "");
}

#[test]
fn query_kinds_are_told_apart() {
    assert!(matches!(query("screen and (grid)"), MediaQuery::TypedCondition(MediaType::Screen, _)));
    assert!(matches!(query("not embossed"), MediaQuery::NotTyped(MediaType::Custom(_))));
    assert!(matches!(query("only screen"), MediaQuery::OnlyTyped(MediaType::Screen)));
    assert!(matches!(query("(grid)"), MediaQuery::Condition(MediaCondition::Is(_))));
    assert!(matches!(query("print"), MediaQuery::Typed(MediaType::Print)));
    assert!(matches!(query("not print and (hover)"), MediaQuery::NotTypedCondition(MediaType::Print, _)));
    assert!(matches!(query("ONLY SCREEN and (hover)"), MediaQuery::OnlyTypedCondition(MediaType::Screen, _)));
}

#[test]
fn or_list_is_its_own_condition() {
    let mut p = parser_for("or (hover) or (grid)").unwrap();
    let c = MediaCondition::parse(&mut p).unwrap();
    assert!(matches!(c, MediaCondition::Or(_)));
    let mut w = CssWriter::new(false);
    c.write_css(&mut w);
    assert_eq!(w.text(), "or (hover) or (grid)");
}

#[test]
fn mixing_and_with_or_fails() {
    let mut p = parser_for("screen and (hover) or (grid)").unwrap();
    let q = MediaQuery::parse(&mut p).unwrap();
    assert!(matches!(q, MediaQuery::TypedCondition(_, MediaCondition::And(_))));
    assert!(p.expect_end().is_err());
}

#[test]
fn nested_condition_is_unimplemented() {
    let mut p = parser_for("((hover))").unwrap();
    assert!(matches!(MediaCondition::parse(&mut p), Err(hdx_ast::diagnostics::ParseError::Unimplemented(_))));
}

#[test]
fn not_needs_a_media_type() {
    let mut p = parser_for("not (hover)").unwrap();
    assert!(MediaQuery::parse(&mut p).is_err());
    let mut p = parser_for("only and").unwrap();
    assert!(MediaQuery::parse(&mut p).is_err());
}

#[test]
fn reserved_word_is_no_media_type() {
    let mut p = parser_for("layer").unwrap();
    assert!(matches!(MediaQuery::parse(&mut p), Err(hdx_ast::diagnostics::ParseError::UnexpectedIdent(_))));
}

#[test]
fn query_list_minifies_separators() {
    let mut p = parser_for("print, screen and (hover)").unwrap();
    let l = MediaQueryList::parse(&mut p).unwrap();
    let mut w = CssWriter::new(true);
    l.write_css(&mut w);
    assert_eq!(w.text(), "print,screen and (hover)");
}

#[test]
fn rule_with_condition_first_drops_space_when_minified() {
    assert_eq!(rule_text("@media (hover) {}", false), "@media (hover) {\n\n}");
    let mut p = parser_for("@media (hover) {}").unwrap();
    let mut r = MediaRule::parse(&mut p).unwrap();
    r.rules.node = MediaRules(vec!["a{}".chars().collect()]);
    let mut w = CssWriter::new(true);
    r.write_css(&mut w);
    assert_eq!(w.text(), "@media(hover){a{}}");
    let mut c = CssWriter::new(false);
    r.write_css(&mut c);
    assert_eq!(c.text(), "@media (hover) {\n\ta{}\n}");
}

#[test]
fn rule_without_block_is_refused() {
    let mut p = parser_for("@media print;").unwrap();
    assert!(matches!(MediaRule::parse(&mut p), Err(hdx_ast::diagnostics::ParseError::MissingAtRuleBlock(_))));
    let mut p = parser_for("@media {}").unwrap();
    assert!(matches!(MediaRule::parse(&mut p), Err(hdx_ast::diagnostics::ParseError::MissingAtRulePrelude(_))));
}

#[test]
fn rule_with_nested_rules_is_unimplemented() {
    let mut p = parser_for("@media print { a {} }").unwrap();
    assert!(matches!(MediaRule::parse(&mut p), Err(hdx_ast::diagnostics::ParseError::Unimplemented(_))));
}
