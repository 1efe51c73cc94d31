//! Colour themes: their names, the palette each one is built from, and the
//! colours of the status badge.

use vstd::prelude::*;

verus! {

/// A colour given by its red, green and blue components.
#[derive(Clone, Copy, Debug, PartialEq, Eq, Structural)]
pub struct Rgb {
    pub r: u8,
    pub g: u8,
    pub b: u8,
}

/// The colour with the given components.
pub open spec fn rgb(r: u8, g: u8, b: u8) -> Rgb {
    Rgb { r, g, b }
}

impl Rgb {
    /// The colour with the given components.
    pub fn new(r: u8, g: u8, b: u8) -> (c: Rgb)
        ensures
            c == rgb(r, g, b),
    {
        Rgb { r, g, b }
    }
}

/// The colour themes of the application.
#[derive(Clone, Copy, Debug, PartialEq, Eq, Structural)]
pub enum Theme {
    /// The light catalogue look, the default: white panels, faint separators, soft corners.
    Catalog,
    Dark,
    Light,
    PostmanOrange,
    Ocean,
}

/// The stock scheme that a theme starts from.
#[derive(Clone, Copy, Debug, PartialEq, Eq, Structural)]
pub enum BaseScheme {
    /// The light scheme recoloured as a catalogue page.
    Catalog,
    Dark,
    Light,
}

/// What a theme's visuals are made of: a stock scheme, and an accent colour laid over
/// selection, hover, links and active widgets where the theme has one.
#[derive(Clone, Copy, Debug, PartialEq, Eq, Structural)]
pub struct ThemeVisuals {
    pub base: BaseScheme,
    pub accent: Option<Rgb>,
}

/// The name of a theme as the theme menu shows it.
pub open spec fn theme_name(t: Theme) -> Seq<char> {
    match t {
        Theme::Catalog => "카탈로그"@,
        Theme::Dark => "다크"@,
        Theme::Light => "라이트"@,
        Theme::PostmanOrange => "Postman 오렌지"@,
        Theme::Ocean => "오션"@,
    }
}

/// The palette of a theme.
pub open spec fn theme_visuals(t: Theme) -> ThemeVisuals {
    match t {
        Theme::Catalog => ThemeVisuals { base: BaseScheme::Catalog, accent: None },
        Theme::Dark => ThemeVisuals { base: BaseScheme::Dark, accent: None },
        Theme::Light => ThemeVisuals { base: BaseScheme::Light, accent: None },
        Theme::PostmanOrange => ThemeVisuals {
            base: BaseScheme::Dark,
            accent: Some(rgb(255, 108, 55)),
        },
        Theme::Ocean => ThemeVisuals { base: BaseScheme::Dark, accent: Some(rgb(64, 169, 220)) },
    }
}

impl Theme {
    /// Every theme, in the order the theme menu lists them.
    pub const ALL: [Theme; 5] = [
        Theme::Catalog,
        Theme::Dark,
        Theme::Light,
        Theme::PostmanOrange,
        Theme::Ocean,
    ];

    /// The name of the theme as the theme menu shows it.
    pub fn name(&self) -> (r: &'static str)
        ensures
            r@ == theme_name(*self),
    {
        match self {
            Theme::Catalog => "카탈로그",
            Theme::Dark => "다크",
            Theme::Light => "라이트",
            Theme::PostmanOrange => "Postman 오렌지",
            Theme::Ocean => "오션",
        }
    }

    /// The palette the theme is built from: Postman orange (#FF6C37) and ocean blue
    /// accents over the dark scheme, the others plain.
    pub fn visuals(&self) -> (v: ThemeVisuals)
        ensures
            v == theme_visuals(*self),
    {
        match self {
            Theme::Catalog => ThemeVisuals { base: BaseScheme::Catalog, accent: None },
            Theme::Dark => ThemeVisuals { base: BaseScheme::Dark, accent: None },
            Theme::Light => ThemeVisuals { base: BaseScheme::Light, accent: None },
            Theme::PostmanOrange => ThemeVisuals {
                base: BaseScheme::Dark,
                accent: Some(Rgb::new(255, 108, 55)),
            },
            Theme::Ocean => ThemeVisuals {
                base: BaseScheme::Dark,
                accent: Some(Rgb::new(64, 169, 220)),
            },
        }
    }
}

impl Default for Theme {
    fn default() -> (t: Theme)
        ensures
            t == Theme::Catalog,
    {
        Theme::Catalog
    }
}

/// Each theme is built on the scheme its name says: the dark theme on the dark scheme,
/// the light theme on the light one, the catalogue theme on the catalogue look, and the
/// two accented themes (Postman orange #FF6C37, ocean blue #40A9DC) on the dark scheme;
/// only those two carry an accent.
pub proof fn law_theme_schemes_match_their_names()
    ensures
        theme_visuals(Theme::Dark).base == BaseScheme::Dark,
        theme_visuals(Theme::Light).base == BaseScheme::Light,
        theme_visuals(Theme::Catalog).base == BaseScheme::Catalog,
        theme_visuals(Theme::PostmanOrange).base == BaseScheme::Dark,
        theme_visuals(Theme::Ocean).base == BaseScheme::Dark,
        theme_visuals(Theme::Dark).accent is None,
        theme_visuals(Theme::Light).accent is None,
        theme_visuals(Theme::Catalog).accent is None,
        theme_visuals(Theme::PostmanOrange).accent == Some(Rgb { r: 0xFF, g: 0x6C, b: 0x37 }),
        theme_visuals(Theme::Ocean).accent == Some(Rgb { r: 0x40, g: 0xA9, b: 0xDC }),
{
}

/// Two different themes never look the same: plain themes differ in their scheme, and
/// accented themes differ in their accent.
pub proof fn law_themes_look_different(a: Theme, b: Theme)
    requires
        a != b,
    ensures
        theme_visuals(a) != theme_visuals(b),
{
}

/// The badge colours (background, text) for a status code: green for 2xx,
/// blue for 3xx, amber for 4xx, red for everything else.
pub open spec fn pill_colors(status: u16) -> (Rgb, Rgb) {
    if 200 <= status <= 299 {
        (rgb(214, 245, 221), rgb(31, 122, 61))
    } else if 300 <= status <= 399 {
        (rgb(219, 234, 254), rgb(30, 64, 175))
    } else if 400 <= status <= 499 {
        (rgb(254, 243, 199), rgb(146, 100, 12))
    } else {
        (rgb(252, 228, 228), rgb(185, 49, 49))
    }
}

/// The badge colours (background, text) for a status code.
pub fn status_pill_colors(status: u16) -> (c: (Rgb, Rgb))
    ensures
        c == pill_colors(status),
{
    if 200 <= status && status <= 299 {
        (Rgb::new(214, 245, 221), Rgb::new(31, 122, 61))
    } else if 300 <= status && status <= 399 {
        (Rgb::new(219, 234, 254), Rgb::new(30, 64, 175))
    } else if 400 <= status && status <= 499 {
        (Rgb::new(254, 243, 199), Rgb::new(146, 100, 12))
    } else {
        (Rgb::new(252, 228, 228), Rgb::new(185, 49, 49))
    }
}


/// Every status code in one hundred (2xx, 3xx, 4xx) gets that class's colours, every
/// other code the error colours, and the four classes have different backgrounds.
pub proof fn law_pill_colors_follow_status_class(status: u16)
    ensures
        200 <= status <= 299 ==> pill_colors(status) == pill_colors(200),
        300 <= status <= 399 ==> pill_colors(status) == pill_colors(300),
        400 <= status <= 499 ==> pill_colors(status) == pill_colors(400),
        (status < 200 || status > 499) ==> pill_colors(status) == pill_colors(500),
        pill_colors(200).0 != pill_colors(300).0,
        pill_colors(200).0 != pill_colors(400).0,
        pill_colors(200).0 != pill_colors(500).0,
        pill_colors(300).0 != pill_colors(400).0,
        pill_colors(300).0 != pill_colors(500).0,
        pill_colors(400).0 != pill_colors(500).0,
        pill_colors(200).0 == rgb(214, 245, 221),
{
}

/// Different themes have different names in the theme menu.
pub proof fn law_theme_names_differ(a: Theme, b: Theme)
    requires
        a != b,
    ensures
        theme_name(a) != theme_name(b),
{
    reveal_strlit("카탈로그");
    reveal_strlit("다크");
    reveal_strlit("라이트");
    reveal_strlit("Postman 오렌지");
    reveal_strlit("오션");
    assert("카탈로그"@[0] != "다크"@[0]);
    assert("카탈로그"@[0] != "라이트"@[0]);
    assert("카탈로그"@[0] != "Postman 오렌지"@[0]);
    assert("카탈로그"@[0] != "오션"@[0]);
    assert("다크"@[0] != "라이트"@[0]);
    assert("다크"@[0] != "Postman 오렌지"@[0]);
    assert("다크"@[0] != "오션"@[0]);
    assert("라이트"@[0] != "Postman 오렌지"@[0]);
    assert("라이트"@[0] != "오션"@[0]);
    assert("Postman 오렌지"@[0] != "오션"@[0]);
}

} // verus!
