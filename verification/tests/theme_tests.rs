use postwoman::persist::AppState;
use postwoman::theme::{status_pill_colors, BaseScheme, Rgb, Theme};

#[test]
fn theme_names_and_default() {
    let names: Vec<&str> = Theme::ALL.iter().map(|t| t.name()).collect();
    assert_eq!(names, vec!["카탈로그", "다크", "라이트", "Postman 오렌지", "오션"]);
    assert_eq!(Theme::default(), Theme::Catalog);
    let state = AppState::default();
    assert_eq!(state.theme, Theme::Catalog);
    assert!(state.url_history.is_empty());
}

#[test]
fn theme_palettes() {
    assert_eq!(Theme::Catalog.visuals().base, BaseScheme::Catalog);
    assert_eq!(Theme::Light.visuals().accent, None);
    assert_eq!(Theme::PostmanOrange.visuals().base, BaseScheme::Dark);
    assert_eq!(Theme::PostmanOrange.visuals().accent, Some(Rgb { r: 255, g: 108, b: 55 }));
    assert_eq!(Theme::Ocean.visuals().accent, Some(Rgb { r: 64, g: 169, b: 220 }));
}

#[test]
fn status_pill_colors_by_class() {
    assert_eq!(status_pill_colors(200), (Rgb { r: 214, g: 245, b: 221 }, Rgb { r: 31, g: 122, b: 61 }));
    assert_eq!(status_pill_colors(299).0, Rgb { r: 214, g: 245, b: 221 });
    assert_eq!(status_pill_colors(301), (Rgb { r: 219, g: 234, b: 254 }, Rgb { r: 30, g: 64, b: 175 }));
    assert_eq!(status_pill_colors(404), (Rgb { r: 254, g: 243, b: 199 }, Rgb { r: 146, g: 100, b: 12 }));
    assert_eq!(status_pill_colors(500), (Rgb { r: 252, g: 228, b: 228 }, Rgb { r: 185, g: 49, b: 49 }));
    assert_eq!(status_pill_colors(100), (Rgb { r: 252, g: 228, b: 228 }, Rgb { r: 185, g: 49, b: 49 }));
}
