use hdx_ast::border::{BorderShorthand, LineStyle, Shorthand};
use hdx_ast::line_width::LineWidth;
use hdx_ast::writer::CssWriter;

fn text(b: &BorderShorthand) -> String {
    let mut w = CssWriter::new(false);
    b.write_css(&mut w);
    w.text()
}

#[test]
fn border_shorthand_writes_explicit_parts() {
    let all = BorderShorthand {
        line_width: Shorthand::Explicit(LineWidth::Thin),
        line_style: Shorthand::Explicit(LineStyle::Dashed),
        color: Shorthand::Explicit("red".chars().collect()),
    };
    assert_eq!(text(&all), "thin dashed red");
    let width_and_color = BorderShorthand {
        line_width: Shorthand::Explicit(LineWidth::Thick),
        line_style: Shorthand::Implicit,
        color: Shorthand::Explicit("blue".chars().collect()),
    };
    assert_eq!(text(&width_and_color), "thick blue");
    let style_only = BorderShorthand {
        line_width: Shorthand::Implicit,
        line_style: Shorthand::Explicit(LineStyle::NoneStyle),
        color: Shorthand::Implicit,
    };
    assert_eq!(text(&style_only), "none");
}
