use vstd::prelude::*;
use crate::lexer::is_plain_ident;
use crate::diagnostics::{unexpected, ParseError, Unimplemented, UnexpectedIdent};
use crate::media::is_word;
use crate::parser::{Parser, ParserView, lemma_skip_skip, lemma_skip_wf, lemma_skip1_progress};
use crate::text::{copy_chars, eq_str, lemma_lower_is_lower, lemma_lower_of_lower, lower, sig, to_ascii_lowercase};
use crate::token::{Atom, Token};
use crate::writer::{gap_text, lemma_put_put, lemma_space, CssWriter};

verus! {

/// The name of a media feature.
#[derive(Clone, Copy, Debug, PartialEq, Eq, Hash, Structural)]
pub enum MediaFeatureName {
    AnyHover,
    AnyPointer,
    AspectRatio,
    Color,
    ColorGamut,
    ColorIndex,
    DeviceAspectRatio,
    DeviceHeight,
    DeviceWidth,
    DisplayMode,
    DynamicRange,
    EnvironmentBlending,
    ForcedColors,
    Grid,
    Height,
    Hover,
    InvertedColors,
    Monochrome,
    NavControls,
    Orientation,
    OverflowBlock,
    OverflowInline,
    Pointer,
    PrefersColorScheme,
    PrefersContrast,
    PrefersReducedData,
    PrefersReducedMotion,
    PrefersReducedTransparency,
    Resolution,
    Scan,
    Scripting,
    Update,
    VideoColorGamut,
    VideoDynamicRange,
    Width,
}

impl MediaFeatureName {
    /// The canonical, lower-case spelling.
    pub open spec fn spelling(self) -> Seq<char> {
        match self {
            MediaFeatureName::AnyHover => "any-hover"@,
            MediaFeatureName::AnyPointer => "any-pointer"@,
            MediaFeatureName::AspectRatio => "aspect-ratio"@,
            MediaFeatureName::Color => "color"@,
            MediaFeatureName::ColorGamut => "color-gamut"@,
            MediaFeatureName::ColorIndex => "color-index"@,
            MediaFeatureName::DeviceAspectRatio => "device-aspect-ratio"@,
            MediaFeatureName::DeviceHeight => "device-height"@,
            MediaFeatureName::DeviceWidth => "device-width"@,
            MediaFeatureName::DisplayMode => "display-mode"@,
            MediaFeatureName::DynamicRange => "dynamic-range"@,
            MediaFeatureName::EnvironmentBlending => "environment-blending"@,
            MediaFeatureName::ForcedColors => "forced-colors"@,
            MediaFeatureName::Grid => "grid"@,
            MediaFeatureName::Height => "height"@,
            MediaFeatureName::Hover => "hover"@,
            MediaFeatureName::InvertedColors => "inverted-colors"@,
            MediaFeatureName::Monochrome => "monochrome"@,
            MediaFeatureName::NavControls => "nav-controls"@,
            MediaFeatureName::Orientation => "orientation"@,
            MediaFeatureName::OverflowBlock => "overflow-block"@,
            MediaFeatureName::OverflowInline => "overflow-inline"@,
            MediaFeatureName::Pointer => "pointer"@,
            MediaFeatureName::PrefersColorScheme => "prefers-color-scheme"@,
            MediaFeatureName::PrefersContrast => "prefers-contrast"@,
            MediaFeatureName::PrefersReducedData => "prefers-reduced-data"@,
            MediaFeatureName::PrefersReducedMotion => "prefers-reduced-motion"@,
            MediaFeatureName::PrefersReducedTransparency => "prefers-reduced-transparency"@,
            MediaFeatureName::Resolution => "resolution"@,
            MediaFeatureName::Scan => "scan"@,
            MediaFeatureName::Scripting => "scripting"@,
            MediaFeatureName::Update => "update"@,
            MediaFeatureName::VideoColorGamut => "video-color-gamut"@,
            MediaFeatureName::VideoDynamicRange => "video-dynamic-range"@,
            MediaFeatureName::Width => "width"@,
        }
    }

    /// The variant spelled `s`, in any case.
    pub open spec fn resolve(s: Seq<char>) -> Option<Self> {
        if exists|v: MediaFeatureName| v.spelling() == lower(s) {
            Some(choose|v: MediaFeatureName| v.spelling() == lower(s))
        } else {
            None
        }
    }

    /// No two variants share a spelling, and every spelling is in lower case.
    pub proof fn lemma_spellings()
        ensures
            forall|a: MediaFeatureName, b: MediaFeatureName| a.spelling() == b.spelling() ==> a == b,
            forall|a: MediaFeatureName| #[trigger] lower(a.spelling()) == a.spelling(),
    {
        reveal_strlit("any-hover");
        reveal_strlit("any-pointer");
        reveal_strlit("aspect-ratio");
        reveal_strlit("color");
        reveal_strlit("color-gamut");
        reveal_strlit("color-index");
        reveal_strlit("device-aspect-ratio");
        reveal_strlit("device-height");
        reveal_strlit("device-width");
        reveal_strlit("display-mode");
        reveal_strlit("dynamic-range");
        reveal_strlit("environment-blending");
        reveal_strlit("forced-colors");
        reveal_strlit("grid");
        reveal_strlit("height");
        reveal_strlit("hover");
        reveal_strlit("inverted-colors");
        reveal_strlit("monochrome");
        reveal_strlit("nav-controls");
        reveal_strlit("orientation");
        reveal_strlit("overflow-block");
        reveal_strlit("overflow-inline");
        reveal_strlit("pointer");
        reveal_strlit("prefers-color-scheme");
        reveal_strlit("prefers-contrast");
        reveal_strlit("prefers-reduced-data");
        reveal_strlit("prefers-reduced-motion");
        reveal_strlit("prefers-reduced-transparency");
        reveal_strlit("resolution");
        reveal_strlit("scan");
        reveal_strlit("scripting");
        reveal_strlit("update");
        reveal_strlit("video-color-gamut");
        reveal_strlit("video-dynamic-range");
        reveal_strlit("width");
        assert forall|a: MediaFeatureName, b: MediaFeatureName| a.spelling() == b.spelling() implies a == b by {
            assert(sig(a.spelling()) == sig(b.spelling()));
        }
        assert forall|a: MediaFeatureName| #[trigger] lower(a.spelling()) == a.spelling() by {
            lemma_lower_of_lower(a.spelling());
        }
    }

    /// A text whose lower-case form is the spelling of `v` resolves to `v`.
    pub proof fn lemma_resolves_to(v: Self, s: Seq<char>)
        requires
            v.spelling() == lower(s),
        ensures
            MediaFeatureName::resolve(s) == Some(v),
    {
        MediaFeatureName::lemma_spellings();
        let w = choose|w: MediaFeatureName| w.spelling() == lower(s);
        assert(w.spelling() == v.spelling());
    }

    /// Every keyword resolves back from its own canonical spelling.
    pub proof fn lemma_resolve_spelling(v: Self)
        ensures
            MediaFeatureName::resolve(v.spelling()) == Some(v),
    {
        MediaFeatureName::lemma_spellings();
        MediaFeatureName::lemma_resolves_to(v, v.spelling());
    }

    /// Each canonical spelling is one identifier, so it is read back as a single token.
    pub proof fn lemma_spelling_is_identifier(v: Self)
        ensures
            is_plain_ident(v.spelling()),
    {
        reveal_strlit("any-hover");
        reveal_strlit("any-pointer");
        reveal_strlit("aspect-ratio");
        reveal_strlit("color");
        reveal_strlit("color-gamut");
        reveal_strlit("color-index");
        reveal_strlit("device-aspect-ratio");
        reveal_strlit("device-height");
        reveal_strlit("device-width");
        reveal_strlit("display-mode");
        reveal_strlit("dynamic-range");
        reveal_strlit("environment-blending");
        reveal_strlit("forced-colors");
        reveal_strlit("grid");
        reveal_strlit("height");
        reveal_strlit("hover");
        reveal_strlit("inverted-colors");
        reveal_strlit("monochrome");
        reveal_strlit("nav-controls");
        reveal_strlit("orientation");
        reveal_strlit("overflow-block");
        reveal_strlit("overflow-inline");
        reveal_strlit("pointer");
        reveal_strlit("prefers-color-scheme");
        reveal_strlit("prefers-contrast");
        reveal_strlit("prefers-reduced-data");
        reveal_strlit("prefers-reduced-motion");
        reveal_strlit("prefers-reduced-transparency");
        reveal_strlit("resolution");
        reveal_strlit("scan");
        reveal_strlit("scripting");
        reveal_strlit("update");
        reveal_strlit("video-color-gamut");
        reveal_strlit("video-dynamic-range");
        reveal_strlit("width");
    }

    /// Resolution ignores ASCII case: a spelling in any case resolves as its lower-case form.
    pub proof fn lemma_resolve_ignores_case(s: Seq<char>)
        ensures
            MediaFeatureName::resolve(s) == MediaFeatureName::resolve(lower(s)),
    {
        lemma_lower_is_lower(s);
    }

    /// The canonical spelling, for writing.
    pub fn to_atom(&self) -> (r: &'static str)
        ensures
            r@ == self.spelling(),
    {
        match self {
            MediaFeatureName::AnyHover => "any-hover",
            MediaFeatureName::AnyPointer => "any-pointer",
            MediaFeatureName::AspectRatio => "aspect-ratio",
            MediaFeatureName::Color => "color",
            MediaFeatureName::ColorGamut => "color-gamut",
            MediaFeatureName::ColorIndex => "color-index",
            MediaFeatureName::DeviceAspectRatio => "device-aspect-ratio",
            MediaFeatureName::DeviceHeight => "device-height",
            MediaFeatureName::DeviceWidth => "device-width",
            MediaFeatureName::DisplayMode => "display-mode",
            MediaFeatureName::DynamicRange => "dynamic-range",
            MediaFeatureName::EnvironmentBlending => "environment-blending",
            MediaFeatureName::ForcedColors => "forced-colors",
            MediaFeatureName::Grid => "grid",
            MediaFeatureName::Height => "height",
            MediaFeatureName::Hover => "hover",
            MediaFeatureName::InvertedColors => "inverted-colors",
            MediaFeatureName::Monochrome => "monochrome",
            MediaFeatureName::NavControls => "nav-controls",
            MediaFeatureName::Orientation => "orientation",
            MediaFeatureName::OverflowBlock => "overflow-block",
            MediaFeatureName::OverflowInline => "overflow-inline",
            MediaFeatureName::Pointer => "pointer",
            MediaFeatureName::PrefersColorScheme => "prefers-color-scheme",
            MediaFeatureName::PrefersContrast => "prefers-contrast",
            MediaFeatureName::PrefersReducedData => "prefers-reduced-data",
            MediaFeatureName::PrefersReducedMotion => "prefers-reduced-motion",
            MediaFeatureName::PrefersReducedTransparency => "prefers-reduced-transparency",
            MediaFeatureName::Resolution => "resolution",
            MediaFeatureName::Scan => "scan",
            MediaFeatureName::Scripting => "scripting",
            MediaFeatureName::Update => "update",
            MediaFeatureName::VideoColorGamut => "video-color-gamut",
            MediaFeatureName::VideoDynamicRange => "video-dynamic-range",
            MediaFeatureName::Width => "width",
        }
    }

    /// Resolves a keyword, ASCII case ignored; only spellings of the same length are compared.
    pub fn from_atom(s: &Atom) -> (r: Option<Self>)
        ensures
            r == MediaFeatureName::resolve(s@),
    {
        let l = to_ascii_lowercase(s);
        proof {
            MediaFeatureName::lemma_spellings();
            reveal_strlit("any-hover");
            reveal_strlit("any-pointer");
            reveal_strlit("aspect-ratio");
            reveal_strlit("color");
            reveal_strlit("color-gamut");
            reveal_strlit("color-index");
            reveal_strlit("device-aspect-ratio");
            reveal_strlit("device-height");
            reveal_strlit("device-width");
            reveal_strlit("display-mode");
            reveal_strlit("dynamic-range");
            reveal_strlit("environment-blending");
            reveal_strlit("forced-colors");
            reveal_strlit("grid");
            reveal_strlit("height");
            reveal_strlit("hover");
            reveal_strlit("inverted-colors");
            reveal_strlit("monochrome");
            reveal_strlit("nav-controls");
            reveal_strlit("orientation");
            reveal_strlit("overflow-block");
            reveal_strlit("overflow-inline");
            reveal_strlit("pointer");
            reveal_strlit("prefers-color-scheme");
            reveal_strlit("prefers-contrast");
            reveal_strlit("prefers-reduced-data");
            reveal_strlit("prefers-reduced-motion");
            reveal_strlit("prefers-reduced-transparency");
            reveal_strlit("resolution");
            reveal_strlit("scan");
            reveal_strlit("scripting");
            reveal_strlit("update");
            reveal_strlit("video-color-gamut");
            reveal_strlit("video-dynamic-range");
            reveal_strlit("width");
        }
        let n = l.len();
        if n == 4 {
            if eq_str(&l, "grid") {
                proof {
                    MediaFeatureName::lemma_resolves_to(MediaFeatureName::Grid, s@);
                }
                return Some(MediaFeatureName::Grid);
            }
            if eq_str(&l, "scan") {
                proof {
                    MediaFeatureName::lemma_resolves_to(MediaFeatureName::Scan, s@);
                }
                return Some(MediaFeatureName::Scan);
            }
        }
        if n == 5 {
            if eq_str(&l, "color") {
                proof {
                    MediaFeatureName::lemma_resolves_to(MediaFeatureName::Color, s@);
                }
                return Some(MediaFeatureName::Color);
            }
            if eq_str(&l, "hover") {
                proof {
                    MediaFeatureName::lemma_resolves_to(MediaFeatureName::Hover, s@);
                }
                return Some(MediaFeatureName::Hover);
            }
            if eq_str(&l, "width") {
                proof {
                    MediaFeatureName::lemma_resolves_to(MediaFeatureName::Width, s@);
                }
                return Some(MediaFeatureName::Width);
            }
        }
        if n == 6 {
            if eq_str(&l, "height") {
                proof {
                    MediaFeatureName::lemma_resolves_to(MediaFeatureName::Height, s@);
                }
                return Some(MediaFeatureName::Height);
            }
            if eq_str(&l, "update") {
                proof {
                    MediaFeatureName::lemma_resolves_to(MediaFeatureName::Update, s@);
                }
                return Some(MediaFeatureName::Update);
            }
        }
        if n == 7 {
            if eq_str(&l, "pointer") {
                proof {
                    MediaFeatureName::lemma_resolves_to(MediaFeatureName::Pointer, s@);
                }
                return Some(MediaFeatureName::Pointer);
            }
        }
        if n == 9 {
            if eq_str(&l, "any-hover") {
                proof {
                    MediaFeatureName::lemma_resolves_to(MediaFeatureName::AnyHover, s@);
                }
                return Some(MediaFeatureName::AnyHover);
            }
            if eq_str(&l, "scripting") {
                proof {
                    MediaFeatureName::lemma_resolves_to(MediaFeatureName::Scripting, s@);
                }
                return Some(MediaFeatureName::Scripting);
            }
        }
        if n == 10 {
            if eq_str(&l, "monochrome") {
                proof {
                    MediaFeatureName::lemma_resolves_to(MediaFeatureName::Monochrome, s@);
                }
                return Some(MediaFeatureName::Monochrome);
            }
            if eq_str(&l, "resolution") {
                proof {
                    MediaFeatureName::lemma_resolves_to(MediaFeatureName::Resolution, s@);
                }
                return Some(MediaFeatureName::Resolution);
            }
        }
        if n == 11 {
            if eq_str(&l, "any-pointer") {
                proof {
                    MediaFeatureName::lemma_resolves_to(MediaFeatureName::AnyPointer, s@);
                }
                return Some(MediaFeatureName::AnyPointer);
            }
            if eq_str(&l, "color-gamut") {
                proof {
                    MediaFeatureName::lemma_resolves_to(MediaFeatureName::ColorGamut, s@);
                }
                return Some(MediaFeatureName::ColorGamut);
            }
            if eq_str(&l, "color-index") {
                proof {
                    MediaFeatureName::lemma_resolves_to(MediaFeatureName::ColorIndex, s@);
                }
                return Some(MediaFeatureName::ColorIndex);
            }
            if eq_str(&l, "orientation") {
                proof {
                    MediaFeatureName::lemma_resolves_to(MediaFeatureName::Orientation, s@);
                }
                return Some(MediaFeatureName::Orientation);
            }
        }
        if n == 12 {
            if eq_str(&l, "aspect-ratio") {
                proof {
                    MediaFeatureName::lemma_resolves_to(MediaFeatureName::AspectRatio, s@);
                }
                return Some(MediaFeatureName::AspectRatio);
            }
            if eq_str(&l, "device-width") {
                proof {
                    MediaFeatureName::lemma_resolves_to(MediaFeatureName::DeviceWidth, s@);
                }
                return Some(MediaFeatureName::DeviceWidth);
            }
            if eq_str(&l, "display-mode") {
                proof {
                    MediaFeatureName::lemma_resolves_to(MediaFeatureName::DisplayMode, s@);
                }
                return Some(MediaFeatureName::DisplayMode);
            }
            if eq_str(&l, "nav-controls") {
                proof {
                    MediaFeatureName::lemma_resolves_to(MediaFeatureName::NavControls, s@);
                }
                return Some(MediaFeatureName::NavControls);
            }
        }
        if n == 13 {
            if eq_str(&l, "device-height") {
                proof {
                    MediaFeatureName::lemma_resolves_to(MediaFeatureName::DeviceHeight, s@);
                }
                return Some(MediaFeatureName::DeviceHeight);
            }
            if eq_str(&l, "dynamic-range") {
                proof {
                    MediaFeatureName::lemma_resolves_to(MediaFeatureName::DynamicRange, s@);
                }
                return Some(MediaFeatureName::DynamicRange);
            }
            if eq_str(&l, "forced-colors") {
                proof {
                    MediaFeatureName::lemma_resolves_to(MediaFeatureName::ForcedColors, s@);
                }
                return Some(MediaFeatureName::ForcedColors);
            }
        }
        if n == 14 {
            if eq_str(&l, "overflow-block") {
                proof {
                    MediaFeatureName::lemma_resolves_to(MediaFeatureName::OverflowBlock, s@);
                }
                return Some(MediaFeatureName::OverflowBlock);
            }
        }
        if n == 15 {
            if eq_str(&l, "inverted-colors") {
                proof {
                    MediaFeatureName::lemma_resolves_to(MediaFeatureName::InvertedColors, s@);
                }
                return Some(MediaFeatureName::InvertedColors);
            }
            if eq_str(&l, "overflow-inline") {
                proof {
                    MediaFeatureName::lemma_resolves_to(MediaFeatureName::OverflowInline, s@);
                }
                return Some(MediaFeatureName::OverflowInline);
            }
        }
        if n == 16 {
            if eq_str(&l, "prefers-contrast") {
                proof {
                    MediaFeatureName::lemma_resolves_to(MediaFeatureName::PrefersContrast, s@);
                }
                return Some(MediaFeatureName::PrefersContrast);
            }
        }
        if n == 17 {
            if eq_str(&l, "video-color-gamut") {
                proof {
                    MediaFeatureName::lemma_resolves_to(MediaFeatureName::VideoColorGamut, s@);
                }
                return Some(MediaFeatureName::VideoColorGamut);
            }
        }
        if n == 19 {
            if eq_str(&l, "device-aspect-ratio") {
                proof {
                    MediaFeatureName::lemma_resolves_to(MediaFeatureName::DeviceAspectRatio, s@);
                }
                return Some(MediaFeatureName::DeviceAspectRatio);
            }
            if eq_str(&l, "video-dynamic-range") {
                proof {
                    MediaFeatureName::lemma_resolves_to(MediaFeatureName::VideoDynamicRange, s@);
                }
                return Some(MediaFeatureName::VideoDynamicRange);
            }
        }
        if n == 20 {
            if eq_str(&l, "environment-blending") {
                proof {
                    MediaFeatureName::lemma_resolves_to(MediaFeatureName::EnvironmentBlending, s@);
                }
                return Some(MediaFeatureName::EnvironmentBlending);
            }
            if eq_str(&l, "prefers-color-scheme") {
                proof {
                    MediaFeatureName::lemma_resolves_to(MediaFeatureName::PrefersColorScheme, s@);
                }
                return Some(MediaFeatureName::PrefersColorScheme);
            }
            if eq_str(&l, "prefers-reduced-data") {
                proof {
                    MediaFeatureName::lemma_resolves_to(MediaFeatureName::PrefersReducedData, s@);
                }
                return Some(MediaFeatureName::PrefersReducedData);
            }
        }
        if n == 22 {
            if eq_str(&l, "prefers-reduced-motion") {
                proof {
                    MediaFeatureName::lemma_resolves_to(MediaFeatureName::PrefersReducedMotion, s@);
                }
                return Some(MediaFeatureName::PrefersReducedMotion);
            }
        }
        if n == 28 {
            if eq_str(&l, "prefers-reduced-transparency") {
                proof {
                    MediaFeatureName::lemma_resolves_to(MediaFeatureName::PrefersReducedTransparency, s@);
                }
                return Some(MediaFeatureName::PrefersReducedTransparency);
            }
        }
        None
    }
}

/// A keyword that a discrete media feature may take as its value.
#[derive(Clone, Copy, Debug, PartialEq, Eq, Hash, Structural)]
pub enum MediaKeyword {
    NoneValue,
    Hover,
    Coarse,
    Fine,
    Srgb,
    GamutP3,
    Rec2020,
    Fullscreen,
    Standalone,
    MinimalUi,
    Browser,
    PictureInPicture,
    Standard,
    High,
    Opaque,
    Additive,
    Subtractive,
    Active,
    Inverted,
    Back,
    Portrait,
    Landscape,
    Scroll,
    Paged,
    Light,
    Dark,
    NoPreference,
    Less,
    More,
    Custom,
    Reduce,
    Interlace,
    Progressive,
    InitialOnly,
    Enabled,
    Slow,
    Fast,
}

impl MediaKeyword {
    /// The canonical, lower-case spelling.
    pub open spec fn spelling(self) -> Seq<char> {
        match self {
            MediaKeyword::NoneValue => "none"@,
            MediaKeyword::Hover => "hover"@,
            MediaKeyword::Coarse => "coarse"@,
            MediaKeyword::Fine => "fine"@,
            MediaKeyword::Srgb => "srgb"@,
            MediaKeyword::GamutP3 => "p3"@,
            MediaKeyword::Rec2020 => "rec2020"@,
            MediaKeyword::Fullscreen => "fullscreen"@,
            MediaKeyword::Standalone => "standalone"@,
            MediaKeyword::MinimalUi => "minimal-ui"@,
            MediaKeyword::Browser => "browser"@,
            MediaKeyword::PictureInPicture => "picture-in-picture"@,
            MediaKeyword::Standard => "standard"@,
            MediaKeyword::High => "high"@,
            MediaKeyword::Opaque => "opaque"@,
            MediaKeyword::Additive => "additive"@,
            MediaKeyword::Subtractive => "subtractive"@,
            MediaKeyword::Active => "active"@,
            MediaKeyword::Inverted => "inverted"@,
            MediaKeyword::Back => "back"@,
            MediaKeyword::Portrait => "portrait"@,
            MediaKeyword::Landscape => "landscape"@,
            MediaKeyword::Scroll => "scroll"@,
            MediaKeyword::Paged => "paged"@,
            MediaKeyword::Light => "light"@,
            MediaKeyword::Dark => "dark"@,
            MediaKeyword::NoPreference => "no-preference"@,
            MediaKeyword::Less => "less"@,
            MediaKeyword::More => "more"@,
            MediaKeyword::Custom => "custom"@,
            MediaKeyword::Reduce => "reduce"@,
            MediaKeyword::Interlace => "interlace"@,
            MediaKeyword::Progressive => "progressive"@,
            MediaKeyword::InitialOnly => "initial-only"@,
            MediaKeyword::Enabled => "enabled"@,
            MediaKeyword::Slow => "slow"@,
            MediaKeyword::Fast => "fast"@,
        }
    }

    /// The variant spelled `s`, in any case.
    pub open spec fn resolve(s: Seq<char>) -> Option<Self> {
        if exists|v: MediaKeyword| v.spelling() == lower(s) {
            Some(choose|v: MediaKeyword| v.spelling() == lower(s))
        } else {
            None
        }
    }

    /// No two variants share a spelling, and every spelling is in lower case.
    pub proof fn lemma_spellings()
        ensures
            forall|a: MediaKeyword, b: MediaKeyword| a.spelling() == b.spelling() ==> a == b,
            forall|a: MediaKeyword| #[trigger] lower(a.spelling()) == a.spelling(),
    {
        reveal_strlit("none");
        reveal_strlit("hover");
        reveal_strlit("coarse");
        reveal_strlit("fine");
        reveal_strlit("srgb");
        reveal_strlit("p3");
        reveal_strlit("rec2020");
        reveal_strlit("fullscreen");
        reveal_strlit("standalone");
        reveal_strlit("minimal-ui");
        reveal_strlit("browser");
        reveal_strlit("picture-in-picture");
        reveal_strlit("standard");
        reveal_strlit("high");
        reveal_strlit("opaque");
        reveal_strlit("additive");
        reveal_strlit("subtractive");
        reveal_strlit("active");
        reveal_strlit("inverted");
        reveal_strlit("back");
        reveal_strlit("portrait");
        reveal_strlit("landscape");
        reveal_strlit("scroll");
        reveal_strlit("paged");
        reveal_strlit("light");
        reveal_strlit("dark");
        reveal_strlit("no-preference");
        reveal_strlit("less");
        reveal_strlit("more");
        reveal_strlit("custom");
        reveal_strlit("reduce");
        reveal_strlit("interlace");
        reveal_strlit("progressive");
        reveal_strlit("initial-only");
        reveal_strlit("enabled");
        reveal_strlit("slow");
        reveal_strlit("fast");
        assert forall|a: MediaKeyword, b: MediaKeyword| a.spelling() == b.spelling() implies a == b by {
            assert(sig(a.spelling()) == sig(b.spelling()));
        }
        assert forall|a: MediaKeyword| #[trigger] lower(a.spelling()) == a.spelling() by {
            lemma_lower_of_lower(a.spelling());
        }
    }

    /// A text whose lower-case form is the spelling of `v` resolves to `v`.
    pub proof fn lemma_resolves_to(v: Self, s: Seq<char>)
        requires
            v.spelling() == lower(s),
        ensures
            MediaKeyword::resolve(s) == Some(v),
    {
        MediaKeyword::lemma_spellings();
        let w = choose|w: MediaKeyword| w.spelling() == lower(s);
        assert(w.spelling() == v.spelling());
    }

    /// Every keyword resolves back from its own canonical spelling.
    pub proof fn lemma_resolve_spelling(v: Self)
        ensures
            MediaKeyword::resolve(v.spelling()) == Some(v),
    {
        MediaKeyword::lemma_spellings();
        MediaKeyword::lemma_resolves_to(v, v.spelling());
    }

    /// Each canonical spelling is one identifier, so it is read back as a single token.
    pub proof fn lemma_spelling_is_identifier(v: Self)
        ensures
            is_plain_ident(v.spelling()),
    {
        reveal_strlit("none");
        reveal_strlit("hover");
        reveal_strlit("coarse");
        reveal_strlit("fine");
        reveal_strlit("srgb");
        reveal_strlit("p3");
        reveal_strlit("rec2020");
        reveal_strlit("fullscreen");
        reveal_strlit("standalone");
        reveal_strlit("minimal-ui");
        reveal_strlit("browser");
        reveal_strlit("picture-in-picture");
        reveal_strlit("standard");
        reveal_strlit("high");
        reveal_strlit("opaque");
        reveal_strlit("additive");
        reveal_strlit("subtractive");
        reveal_strlit("active");
        reveal_strlit("inverted");
        reveal_strlit("back");
        reveal_strlit("portrait");
        reveal_strlit("landscape");
        reveal_strlit("scroll");
        reveal_strlit("paged");
        reveal_strlit("light");
        reveal_strlit("dark");
        reveal_strlit("no-preference");
        reveal_strlit("less");
        reveal_strlit("more");
        reveal_strlit("custom");
        reveal_strlit("reduce");
        reveal_strlit("interlace");
        reveal_strlit("progressive");
        reveal_strlit("initial-only");
        reveal_strlit("enabled");
        reveal_strlit("slow");
        reveal_strlit("fast");
    }

    /// Resolution ignores ASCII case: a spelling in any case resolves as its lower-case form.
    pub proof fn lemma_resolve_ignores_case(s: Seq<char>)
        ensures
            MediaKeyword::resolve(s) == MediaKeyword::resolve(lower(s)),
    {
        lemma_lower_is_lower(s);
    }

    /// The canonical spelling, for writing.
    pub fn to_atom(&self) -> (r: &'static str)
        ensures
            r@ == self.spelling(),
    {
        match self {
            MediaKeyword::NoneValue => "none",
            MediaKeyword::Hover => "hover",
            MediaKeyword::Coarse => "coarse",
            MediaKeyword::Fine => "fine",
            MediaKeyword::Srgb => "srgb",
            MediaKeyword::GamutP3 => "p3",
            MediaKeyword::Rec2020 => "rec2020",
            MediaKeyword::Fullscreen => "fullscreen",
            MediaKeyword::Standalone => "standalone",
            MediaKeyword::MinimalUi => "minimal-ui",
            MediaKeyword::Browser => "browser",
            MediaKeyword::PictureInPicture => "picture-in-picture",
            MediaKeyword::Standard => "standard",
            MediaKeyword::High => "high",
            MediaKeyword::Opaque => "opaque",
            MediaKeyword::Additive => "additive",
            MediaKeyword::Subtractive => "subtractive",
            MediaKeyword::Active => "active",
            MediaKeyword::Inverted => "inverted",
            MediaKeyword::Back => "back",
            MediaKeyword::Portrait => "portrait",
            MediaKeyword::Landscape => "landscape",
            MediaKeyword::Scroll => "scroll",
            MediaKeyword::Paged => "paged",
            MediaKeyword::Light => "light",
            MediaKeyword::Dark => "dark",
            MediaKeyword::NoPreference => "no-preference",
            MediaKeyword::Less => "less",
            MediaKeyword::More => "more",
            MediaKeyword::Custom => "custom",
            MediaKeyword::Reduce => "reduce",
            MediaKeyword::Interlace => "interlace",
            MediaKeyword::Progressive => "progressive",
            MediaKeyword::InitialOnly => "initial-only",
            MediaKeyword::Enabled => "enabled",
            MediaKeyword::Slow => "slow",
            MediaKeyword::Fast => "fast",
        }
    }

    /// Resolves a keyword, ASCII case ignored; only spellings of the same length are compared.
    pub fn from_atom(s: &Atom) -> (r: Option<Self>)
        ensures
            r == MediaKeyword::resolve(s@),
    {
        let l = to_ascii_lowercase(s);
        proof {
            MediaKeyword::lemma_spellings();
            reveal_strlit("none");
            reveal_strlit("hover");
            reveal_strlit("coarse");
            reveal_strlit("fine");
            reveal_strlit("srgb");
            reveal_strlit("p3");
            reveal_strlit("rec2020");
            reveal_strlit("fullscreen");
            reveal_strlit("standalone");
            reveal_strlit("minimal-ui");
            reveal_strlit("browser");
            reveal_strlit("picture-in-picture");
            reveal_strlit("standard");
            reveal_strlit("high");
            reveal_strlit("opaque");
            reveal_strlit("additive");
            reveal_strlit("subtractive");
            reveal_strlit("active");
            reveal_strlit("inverted");
            reveal_strlit("back");
            reveal_strlit("portrait");
            reveal_strlit("landscape");
            reveal_strlit("scroll");
            reveal_strlit("paged");
            reveal_strlit("light");
            reveal_strlit("dark");
            reveal_strlit("no-preference");
            reveal_strlit("less");
            reveal_strlit("more");
            reveal_strlit("custom");
            reveal_strlit("reduce");
            reveal_strlit("interlace");
            reveal_strlit("progressive");
            reveal_strlit("initial-only");
            reveal_strlit("enabled");
            reveal_strlit("slow");
            reveal_strlit("fast");
        }
        let n = l.len();
        if n == 2 {
            if eq_str(&l, "p3") {
                proof {
                    MediaKeyword::lemma_resolves_to(MediaKeyword::GamutP3, s@);
                }
                return Some(MediaKeyword::GamutP3);
            }
        }
        if n == 4 {
            if eq_str(&l, "none") {
                proof {
                    MediaKeyword::lemma_resolves_to(MediaKeyword::NoneValue, s@);
                }
                return Some(MediaKeyword::NoneValue);
            }
            if eq_str(&l, "fine") {
                proof {
                    MediaKeyword::lemma_resolves_to(MediaKeyword::Fine, s@);
                }
                return Some(MediaKeyword::Fine);
            }
            if eq_str(&l, "srgb") {
                proof {
                    MediaKeyword::lemma_resolves_to(MediaKeyword::Srgb, s@);
                }
                return Some(MediaKeyword::Srgb);
            }
            if eq_str(&l, "high") {
                proof {
                    MediaKeyword::lemma_resolves_to(MediaKeyword::High, s@);
                }
                return Some(MediaKeyword::High);
            }
            if eq_str(&l, "back") {
                proof {
                    MediaKeyword::lemma_resolves_to(MediaKeyword::Back, s@);
                }
                return Some(MediaKeyword::Back);
            }
            if eq_str(&l, "dark") {
                proof {
                    MediaKeyword::lemma_resolves_to(MediaKeyword::Dark, s@);
                }
                return Some(MediaKeyword::Dark);
            }
            if eq_str(&l, "less") {
                proof {
                    MediaKeyword::lemma_resolves_to(MediaKeyword::Less, s@);
                }
                return Some(MediaKeyword::Less);
            }
            if eq_str(&l, "more") {
                proof {
                    MediaKeyword::lemma_resolves_to(MediaKeyword::More, s@);
                }
                return Some(MediaKeyword::More);
            }
            if eq_str(&l, "slow") {
                proof {
                    MediaKeyword::lemma_resolves_to(MediaKeyword::Slow, s@);
                }
                return Some(MediaKeyword::Slow);
            }
            if eq_str(&l, "fast") {
                proof {
                    MediaKeyword::lemma_resolves_to(MediaKeyword::Fast, s@);
                }
                return Some(MediaKeyword::Fast);
            }
        }
        if n == 5 {
            if eq_str(&l, "hover") {
                proof {
                    MediaKeyword::lemma_resolves_to(MediaKeyword::Hover, s@);
                }
                return Some(MediaKeyword::Hover);
            }
            if eq_str(&l, "paged") {
                proof {
                    MediaKeyword::lemma_resolves_to(MediaKeyword::Paged, s@);
                }
                return Some(MediaKeyword::Paged);
            }
            if eq_str(&l, "light") {
                proof {
                    MediaKeyword::lemma_resolves_to(MediaKeyword::Light, s@);
                }
                return Some(MediaKeyword::Light);
            }
        }
        if n == 6 {
            if eq_str(&l, "coarse") {
                proof {
                    MediaKeyword::lemma_resolves_to(MediaKeyword::Coarse, s@);
                }
                return Some(MediaKeyword::Coarse);
            }
            if eq_str(&l, "opaque") {
                proof {
                    MediaKeyword::lemma_resolves_to(MediaKeyword::Opaque, s@);
                }
                return Some(MediaKeyword::Opaque);
            }
            if eq_str(&l, "active") {
                proof {
                    MediaKeyword::lemma_resolves_to(MediaKeyword::Active, s@);
                }
                return Some(MediaKeyword::Active);
            }
            if eq_str(&l, "scroll") {
                proof {
                    MediaKeyword::lemma_resolves_to(MediaKeyword::Scroll, s@);
                }
                return Some(MediaKeyword::Scroll);
            }
            if eq_str(&l, "custom") {
                proof {
                    MediaKeyword::lemma_resolves_to(MediaKeyword::Custom, s@);
                }
                return Some(MediaKeyword::Custom);
            }
            if eq_str(&l, "reduce") {
                proof {
                    MediaKeyword::lemma_resolves_to(MediaKeyword::Reduce, s@);
                }
                return Some(MediaKeyword::Reduce);
            }
        }
        if n == 7 {
            if eq_str(&l, "rec2020") {
                proof {
                    MediaKeyword::lemma_resolves_to(MediaKeyword::Rec2020, s@);
                }
                return Some(MediaKeyword::Rec2020);
            }
            if eq_str(&l, "browser") {
                proof {
                    MediaKeyword::lemma_resolves_to(MediaKeyword::Browser, s@);
                }
                return Some(MediaKeyword::Browser);
            }
            if eq_str(&l, "enabled") {
                proof {
                    MediaKeyword::lemma_resolves_to(MediaKeyword::Enabled, s@);
                }
                return Some(MediaKeyword::Enabled);
            }
        }
        if n == 8 {
            if eq_str(&l, "standard") {
                proof {
                    MediaKeyword::lemma_resolves_to(MediaKeyword::Standard, s@);
                }
                return Some(MediaKeyword::Standard);
            }
            if eq_str(&l, "additive") {
                proof {
                    MediaKeyword::lemma_resolves_to(MediaKeyword::Additive, s@);
                }
                return Some(MediaKeyword::Additive);
            }
            if eq_str(&l, "inverted") {
                proof {
                    MediaKeyword::lemma_resolves_to(MediaKeyword::Inverted, s@);
                }
                return Some(MediaKeyword::Inverted);
            }
            if eq_str(&l, "portrait") {
                proof {
                    MediaKeyword::lemma_resolves_to(MediaKeyword::Portrait, s@);
                }
                return Some(MediaKeyword::Portrait);
            }
        }
        if n == 9 {
            if eq_str(&l, "landscape") {
                proof {
                    MediaKeyword::lemma_resolves_to(MediaKeyword::Landscape, s@);
                }
                return Some(MediaKeyword::Landscape);
            }
            if eq_str(&l, "interlace") {
                proof {
                    MediaKeyword::lemma_resolves_to(MediaKeyword::Interlace, s@);
                }
                return Some(MediaKeyword::Interlace);
            }
        }
        if n == 10 {
            if eq_str(&l, "fullscreen") {
                proof {
                    MediaKeyword::lemma_resolves_to(MediaKeyword::Fullscreen, s@);
                }
                return Some(MediaKeyword::Fullscreen);
            }
            if eq_str(&l, "standalone") {
                proof {
                    MediaKeyword::lemma_resolves_to(MediaKeyword::Standalone, s@);
                }
                return Some(MediaKeyword::Standalone);
            }
            if eq_str(&l, "minimal-ui") {
                proof {
                    MediaKeyword::lemma_resolves_to(MediaKeyword::MinimalUi, s@);
                }
                return Some(MediaKeyword::MinimalUi);
            }
        }
        if n == 11 {
            if eq_str(&l, "subtractive") {
                proof {
                    MediaKeyword::lemma_resolves_to(MediaKeyword::Subtractive, s@);
                }
                return Some(MediaKeyword::Subtractive);
            }
            if eq_str(&l, "progressive") {
                proof {
                    MediaKeyword::lemma_resolves_to(MediaKeyword::Progressive, s@);
                }
                return Some(MediaKeyword::Progressive);
            }
        }
        if n == 12 {
            if eq_str(&l, "initial-only") {
                proof {
                    MediaKeyword::lemma_resolves_to(MediaKeyword::InitialOnly, s@);
                }
                return Some(MediaKeyword::InitialOnly);
            }
        }
        if n == 13 {
            if eq_str(&l, "no-preference") {
                proof {
                    MediaKeyword::lemma_resolves_to(MediaKeyword::NoPreference, s@);
                }
                return Some(MediaKeyword::NoPreference);
            }
        }
        if n == 18 {
            if eq_str(&l, "picture-in-picture") {
                proof {
                    MediaKeyword::lemma_resolves_to(MediaKeyword::PictureInPicture, s@);
                }
                return Some(MediaKeyword::PictureInPicture);
            }
        }
        None
    }
}

/// The keywords a discrete feature takes; a feature of a range or a number takes none.
pub open spec fn feature_allows(name: MediaFeatureName, kw: MediaKeyword) -> bool {
    match name {
        MediaFeatureName::AnyHover => kw == MediaKeyword::NoneValue || kw == MediaKeyword::Hover,
        MediaFeatureName::AnyPointer => {
            kw == MediaKeyword::NoneValue
                || kw == MediaKeyword::Coarse
                || kw == MediaKeyword::Fine
        },
        MediaFeatureName::ColorGamut => {
            kw == MediaKeyword::Srgb
                || kw == MediaKeyword::GamutP3
                || kw == MediaKeyword::Rec2020
        },
        MediaFeatureName::DisplayMode => {
            kw == MediaKeyword::Fullscreen
                || kw == MediaKeyword::Standalone
                || kw == MediaKeyword::MinimalUi
                || kw == MediaKeyword::Browser
                || kw == MediaKeyword::PictureInPicture
        },
        MediaFeatureName::DynamicRange => kw == MediaKeyword::Standard || kw == MediaKeyword::High,
        MediaFeatureName::EnvironmentBlending => {
            kw == MediaKeyword::Opaque
                || kw == MediaKeyword::Additive
                || kw == MediaKeyword::Subtractive
        },
        MediaFeatureName::ForcedColors => kw == MediaKeyword::NoneValue || kw == MediaKeyword::Active,
        MediaFeatureName::Hover => kw == MediaKeyword::NoneValue || kw == MediaKeyword::Hover,
        MediaFeatureName::InvertedColors => kw == MediaKeyword::NoneValue || kw == MediaKeyword::Inverted,
        MediaFeatureName::NavControls => kw == MediaKeyword::NoneValue || kw == MediaKeyword::Back,
        MediaFeatureName::Orientation => kw == MediaKeyword::Portrait || kw == MediaKeyword::Landscape,
        MediaFeatureName::OverflowBlock => {
            kw == MediaKeyword::NoneValue
                || kw == MediaKeyword::Scroll
                || kw == MediaKeyword::Paged
        },
        MediaFeatureName::OverflowInline => kw == MediaKeyword::NoneValue || kw == MediaKeyword::Scroll,
        MediaFeatureName::Pointer => {
            kw == MediaKeyword::NoneValue
                || kw == MediaKeyword::Coarse
                || kw == MediaKeyword::Fine
        },
        MediaFeatureName::PrefersColorScheme => kw == MediaKeyword::Light || kw == MediaKeyword::Dark,
        MediaFeatureName::PrefersContrast => {
            kw == MediaKeyword::NoPreference
                || kw == MediaKeyword::Less
                || kw == MediaKeyword::More
                || kw == MediaKeyword::Custom
        },
        MediaFeatureName::PrefersReducedData => {
            kw == MediaKeyword::NoPreference
                || kw == MediaKeyword::Reduce
        },
        MediaFeatureName::PrefersReducedMotion => {
            kw == MediaKeyword::NoPreference
                || kw == MediaKeyword::Reduce
        },
        MediaFeatureName::PrefersReducedTransparency => {
            kw == MediaKeyword::NoPreference
                || kw == MediaKeyword::Reduce
        },
        MediaFeatureName::Scan => kw == MediaKeyword::Interlace || kw == MediaKeyword::Progressive,
        MediaFeatureName::Scripting => {
            kw == MediaKeyword::NoneValue
                || kw == MediaKeyword::InitialOnly
                || kw == MediaKeyword::Enabled
        },
        MediaFeatureName::Update => {
            kw == MediaKeyword::NoneValue
                || kw == MediaKeyword::Slow
                || kw == MediaKeyword::Fast
        },
        MediaFeatureName::VideoColorGamut => {
            kw == MediaKeyword::Srgb
                || kw == MediaKeyword::GamutP3
                || kw == MediaKeyword::Rec2020
        },
        MediaFeatureName::VideoDynamicRange => kw == MediaKeyword::Standard || kw == MediaKeyword::High,
        _ => false,
    }
}

/// Whether the feature is discrete: its value, if any, is one keyword of a closed set.
pub open spec fn is_discrete(name: MediaFeatureName) -> bool {
    match name {
        MediaFeatureName::AspectRatio => false,
        MediaFeatureName::Color => false,
        MediaFeatureName::ColorIndex => false,
        MediaFeatureName::DeviceAspectRatio => false,
        MediaFeatureName::DeviceHeight => false,
        MediaFeatureName::DeviceWidth => false,
        MediaFeatureName::Grid => false,
        MediaFeatureName::Height => false,
        MediaFeatureName::Monochrome => false,
        MediaFeatureName::Resolution => false,
        MediaFeatureName::Width => false,
        _ => true,
    }
}

pub fn allows(name: MediaFeatureName, kw: MediaKeyword) -> (r: bool)
    ensures
        r == feature_allows(name, kw),
{
    match name {
        MediaFeatureName::AnyHover => kw == MediaKeyword::NoneValue || kw == MediaKeyword::Hover,
        MediaFeatureName::AnyPointer => {
            kw == MediaKeyword::NoneValue
                || kw == MediaKeyword::Coarse
                || kw == MediaKeyword::Fine
        },
        MediaFeatureName::ColorGamut => {
            kw == MediaKeyword::Srgb
                || kw == MediaKeyword::GamutP3
                || kw == MediaKeyword::Rec2020
        },
        MediaFeatureName::DisplayMode => {
            kw == MediaKeyword::Fullscreen
                || kw == MediaKeyword::Standalone
                || kw == MediaKeyword::MinimalUi
                || kw == MediaKeyword::Browser
                || kw == MediaKeyword::PictureInPicture
        },
        MediaFeatureName::DynamicRange => kw == MediaKeyword::Standard || kw == MediaKeyword::High,
        MediaFeatureName::EnvironmentBlending => {
            kw == MediaKeyword::Opaque
                || kw == MediaKeyword::Additive
                || kw == MediaKeyword::Subtractive
        },
        MediaFeatureName::ForcedColors => kw == MediaKeyword::NoneValue || kw == MediaKeyword::Active,
        MediaFeatureName::Hover => kw == MediaKeyword::NoneValue || kw == MediaKeyword::Hover,
        MediaFeatureName::InvertedColors => kw == MediaKeyword::NoneValue || kw == MediaKeyword::Inverted,
        MediaFeatureName::NavControls => kw == MediaKeyword::NoneValue || kw == MediaKeyword::Back,
        MediaFeatureName::Orientation => kw == MediaKeyword::Portrait || kw == MediaKeyword::Landscape,
        MediaFeatureName::OverflowBlock => {
            kw == MediaKeyword::NoneValue
                || kw == MediaKeyword::Scroll
                || kw == MediaKeyword::Paged
        },
        MediaFeatureName::OverflowInline => kw == MediaKeyword::NoneValue || kw == MediaKeyword::Scroll,
        MediaFeatureName::Pointer => {
            kw == MediaKeyword::NoneValue
                || kw == MediaKeyword::Coarse
                || kw == MediaKeyword::Fine
        },
        MediaFeatureName::PrefersColorScheme => kw == MediaKeyword::Light || kw == MediaKeyword::Dark,
        MediaFeatureName::PrefersContrast => {
            kw == MediaKeyword::NoPreference
                || kw == MediaKeyword::Less
                || kw == MediaKeyword::More
                || kw == MediaKeyword::Custom
        },
        MediaFeatureName::PrefersReducedData => {
            kw == MediaKeyword::NoPreference
                || kw == MediaKeyword::Reduce
        },
        MediaFeatureName::PrefersReducedMotion => {
            kw == MediaKeyword::NoPreference
                || kw == MediaKeyword::Reduce
        },
        MediaFeatureName::PrefersReducedTransparency => {
            kw == MediaKeyword::NoPreference
                || kw == MediaKeyword::Reduce
        },
        MediaFeatureName::Scan => kw == MediaKeyword::Interlace || kw == MediaKeyword::Progressive,
        MediaFeatureName::Scripting => {
            kw == MediaKeyword::NoneValue
                || kw == MediaKeyword::InitialOnly
                || kw == MediaKeyword::Enabled
        },
        MediaFeatureName::Update => {
            kw == MediaKeyword::NoneValue
                || kw == MediaKeyword::Slow
                || kw == MediaKeyword::Fast
        },
        MediaFeatureName::VideoColorGamut => {
            kw == MediaKeyword::Srgb
                || kw == MediaKeyword::GamutP3
                || kw == MediaKeyword::Rec2020
        },
        MediaFeatureName::VideoDynamicRange => kw == MediaKeyword::Standard || kw == MediaKeyword::High,
        _ => false,
    }
}

pub fn discrete(name: MediaFeatureName) -> (r: bool)
    ensures
        r == is_discrete(name),
{
    match name {
        MediaFeatureName::AspectRatio => false,
        MediaFeatureName::Color => false,
        MediaFeatureName::ColorIndex => false,
        MediaFeatureName::DeviceAspectRatio => false,
        MediaFeatureName::DeviceHeight => false,
        MediaFeatureName::DeviceWidth => false,
        MediaFeatureName::Grid => false,
        MediaFeatureName::Height => false,
        MediaFeatureName::Monochrome => false,
        MediaFeatureName::Resolution => false,
        MediaFeatureName::Width => false,
        _ => true,
    }
}
/// A media feature test: `(name)` tests presence, `(name: keyword)` a value.
#[derive(Clone, Copy, Debug, PartialEq, Eq, Hash, Structural)]
pub struct MediaFeature {
    pub name: MediaFeatureName,
    pub value: Option<MediaKeyword>,
    /// Whitespace stood between the colon and the value in the source; canonical
    /// output keeps it, minified output drops it.
    pub gap: bool,
}

impl MediaFeature {
    /// `name` or `name:keyword`, as it stands between the parentheses.
    pub open spec fn body_text(self, minify: bool) -> Seq<char> {
        match self.value {
            None => self.name.spelling(),
            Some(k) => self.name.spelling() + seq![':'] + (if self.gap { gap_text(minify) } else { Seq::empty() })
                + k.spelling(),
        }
    }

    pub open spec fn text(self, minify: bool) -> Seq<char> {
        seq!['('] + self.body_text(minify) + seq![')']
    }

    /// The feature named `name` that the tokens at `v` spell, without parentheses.
    pub open spec fn parse_body_spec(v: ParserView, name: MediaFeatureName) -> Option<(MediaFeature, ParserView)> {
        match v.cur() {
            Token::Ident(a) => if lower(a@) == name.spelling() {
                let w = v.skip(1);
                if w.cur() is Colon {
                    let x = w.skip(1);
                    match x.cur() {
                        Token::Ident(k) => match MediaKeyword::resolve(k@) {
                            Some(kw) => if feature_allows(name, kw) {
                                Some((MediaFeature { name, value: Some(kw), gap: x.cur_span().start > w.cur_span().end }, x.skip(1)))
                            } else {
                                None
                            },
                            None => None,
                        },
                        _ => None,
                    }
                } else {
                    Some((MediaFeature { name, value: None, gap: false }, w))
                }
            } else {
                None
            },
            _ => None,
        }
    }

    /// The feature at `v` is named `name` and has a colon after its name.
    pub open spec fn has_value(v: ParserView, name: MediaFeatureName) -> bool {
        match v.cur() {
            Token::Ident(a) => lower(a@) == name.spelling() && v.skip(1).cur() is Colon,
            _ => false,
        }
    }

    /// The value after the colon is an identifier that names no keyword.
    pub open spec fn unknown_value(v: ParserView, name: MediaFeatureName) -> bool {
        MediaFeature::has_value(v, name) && is_discrete(name) && match v.skip(1).skip(1).cur() {
            Token::Ident(k) => MediaKeyword::resolve(k@) is None,
            _ => false,
        }
    }

    /// An identifier that names no media feature.
    pub open spec fn unknown_name(v: ParserView) -> bool {
        match v.cur() {
            Token::Ident(a) => MediaFeatureName::resolve(a@) is None,
            _ => false,
        }
    }

    /// The feature that the tokens at `v` spell, parentheses included.
    pub open spec fn parse_spec(v: ParserView) -> Option<(MediaFeature, ParserView)> {
        if v.cur() is LeftParen {
            let w = v.skip(1);
            match w.cur() {
                Token::Ident(a) => match MediaFeatureName::resolve(a@) {
                    Some(n) => match MediaFeature::parse_body_spec(w, n) {
                        Some((f, x)) => if x.cur() is RightParen {
                            Some((f, x.skip(1)))
                        } else {
                            None
                        },
                        None => None,
                    },
                    None => None,
                },
                _ => None,
            }
        } else {
            None
        }
    }

    /// Parses the feature `name` as it stands inside the parentheses.
    pub fn parse_named(p: &mut Parser, name: MediaFeatureName) -> (r: Result<MediaFeature, ParseError>)
        requires
            old(p)@.wf(),
        ensures
            final(p)@.wf(),
            final(p)@.toks == old(p)@.toks,
            r is Ok <==> MediaFeature::parse_body_spec(old(p)@, name) is Some,
            r matches Ok(f) ==> MediaFeature::parse_body_spec(old(p)@, name) == Some((f, final(p)@)),
            r is Ok ==> final(p)@.pos > old(p)@.pos,
            r matches Err(e) ==> (e is Unimplemented <==> MediaFeature::has_value(old(p)@, name) && !is_discrete(name)),
            r matches Err(e) ==> (e is UnexpectedIdent <==> MediaFeature::unknown_value(old(p)@, name)),
    {
        let named = match p.cur() {
            Token::Ident(a) => {
                let l = to_ascii_lowercase(a);
                eq_str(&l, name.to_atom())
            },
            _ => false,
        };
        if !named {
            return Err(unexpected(p));
        }
        proof {
            lemma_skip1_progress(p@);
        }
        p.advance();
        if !matches!(p.cur(), Token::Colon) {
            return Ok(MediaFeature { name, value: None, gap: false });
        }
        if !discrete(name) {
            return Err(ParseError::Unimplemented(Unimplemented(p.span())));
        }
        let colon_end = p.span().end;
        proof {
            lemma_skip1_progress(p@);
        }
        p.advance();
        let kw = match p.cur() {
            Token::Ident(k) => match MediaKeyword::from_atom(k) {
                Some(kw) => kw,
                None => {
                    return Err(ParseError::UnexpectedIdent(UnexpectedIdent(copy_chars(k), p.span())));
                },
            },
            _ => {
                return Err(unexpected(p));
            },
        };
        if !allows(name, kw) {
            return Err(unexpected(p));
        }
        let gap = p.span().start > colon_end;
        proof {
            lemma_skip1_progress(p@);
        }
        p.advance();
        Ok(MediaFeature { name, value: Some(kw), gap })
    }

    /// Parses `(name)` or `(name: keyword)`.
    pub fn parse(p: &mut Parser) -> (r: Result<MediaFeature, ParseError>)
        requires
            old(p)@.wf(),
        ensures
            final(p)@.wf(),
            final(p)@.toks == old(p)@.toks,
            r is Ok <==> MediaFeature::parse_spec(old(p)@) is Some,
            r matches Ok(f) ==> MediaFeature::parse_spec(old(p)@) == Some((f, final(p)@)),
            r is Ok ==> final(p)@.pos > old(p)@.pos,
            old(p)@.cur() is LeftParen && MediaFeature::unknown_name(old(p)@.skip(1)) ==> (r matches Err(e)
                && e is UnexpectedIdent),
    {
        if !matches!(p.cur(), Token::LeftParen) {
            return Err(unexpected(p));
        }
        proof {
            lemma_skip1_progress(p@);
        }
        p.advance();
        let name = match p.cur() {
            Token::Ident(a) => match MediaFeatureName::from_atom(a) {
                Some(n) => n,
                None => {
                    return Err(ParseError::UnexpectedIdent(UnexpectedIdent(copy_chars(a), p.span())));
                },
            },
            _ => {
                return Err(unexpected(p));
            },
        };
        let f = MediaFeature::parse_named(p, name)?;
        if !matches!(p.cur(), Token::RightParen) {
            return Err(unexpected(p));
        }
        proof {
            lemma_skip1_progress(p@);
        }
        p.advance();
        Ok(f)
    }

    /// Writes the part between the parentheses.
    pub fn write_body(&self, w: &mut CssWriter)
        ensures
            final(w)@ == old(w)@.put(self.body_text(old(w)@.minify)),
    {
        let ghost w0 = w@;
        w.write_str(self.name.to_atom());
        match self.value {
            Some(k) => {
                w.write_str(":");
                proof {
                    reveal_strlit(":");
                    assert(":"@ =~= seq![':']);
                    lemma_put_put(w0, self.name.spelling(), seq![':']);
                }
                let ghost acc = self.name.spelling() + seq![':'];
                let ghost g = if self.gap { gap_text(w0.minify) } else { Seq::<char>::empty() };
                if self.gap {
                    w.write_whitespace();
                    proof {
                        lemma_space(w0.put(acc));
                    }
                }
                proof {
                    lemma_put_put(w0, acc, g);
                }
                w.write_str(k.to_atom());
                proof {
                    lemma_put_put(w0, acc + g, k.spelling());
                }
            },
            None => {},
        }
    }

    pub fn write_css(&self, w: &mut CssWriter)
        ensures
            final(w)@ == old(w)@.put(self.text(old(w)@.minify)),
    {
        let ghost w0 = w@;
        w.write_str("(");
        self.write_body(w);
        w.write_str(")");
        proof {
            reveal_strlit("(");
            reveal_strlit(")");
            assert("("@ =~= seq!['(']);
            assert(")"@ =~= seq![')']);
            lemma_put_put(w0, seq!['('], self.body_text(w0.minify));
            lemma_put_put(w0, seq!['('] + self.body_text(w0.minify), seq![')']);
        }
    }
}

/// A discrete feature read back from the tokens of its own canonical text
/// (its name, and a colon and its keyword if it has a value) is the same
/// feature, and writes the same text again.
pub proof fn lemma_feature_round_trip(f: MediaFeature, v: ParserView)
    requires
        v.wf(),
        is_word(v.cur(), f.name.spelling()),
        match f.value {
            None => !(v.tok(1) is Colon) && !f.gap,
            Some(k) => feature_allows(f.name, k) && v.tok(1) is Colon && is_word(v.tok(2), k.spelling())
                && (v.span_at(2).start > v.span_at(1).end) == f.gap,
        },
    ensures
        MediaFeature::parse_body_spec(v, f.name) matches Some((g, _)) && g == f
            && g.text(false) == f.text(false),
{
    lemma_skip_wf(v, 1);
    lemma_skip_wf(v, 2);
    lemma_skip_skip(v, 1, 1);
    match f.value {
        Some(k) => {
            match v.tok(2) {
                Token::Ident(a) => {
                    MediaKeyword::lemma_resolves_to(k, a@);
                },
                _ => {},
            }
        },
        None => {},
    }
}

/// Minified output of a feature is never longer than canonical output; and
/// the feature read back from minified text (no gap after the colon) writes
/// that same minified text under either policy.
pub proof fn lemma_feature_minify(f: MediaFeature)
    ensures
        f.text(true).len() <= f.text(false).len(),
        (MediaFeature { gap: false, ..f }).text(true) == f.text(true),
        (MediaFeature { gap: false, ..f }).text(false) == f.text(true),
{
    match f.value {
        Some(k) => {
            assert(f.body_text(true) =~= f.name.spelling() + seq![':'] + k.spelling());
        },
        None => {},
    }
}

} // verus!
