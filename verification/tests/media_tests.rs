use fm_core::preview::Preview;

fn png_bytes(w: u32, h: u32) -> Vec<u8> {
    let img = image::RgbaImage::from_pixel(w, h, image::Rgba([200, 10, 10, 255]));
    let dynimg = image::DynamicImage::ImageRgba8(img);
    let mut buf: Vec<u8> = Vec::new();
    dynimg
        .write_to(&mut std::io::Cursor::new(&mut buf), image::ImageOutputFormat::Png)
        .unwrap();
    buf
}

#[test]
fn image_within_budget_passes_through() {
    let data = png_bytes(4, 4);
    let out = Preview::image(&data, 10, 10).unwrap();
    assert_eq!(out.width, 4);
    assert_eq!(out.height, 4);
}

#[test]
fn image_over_budget_is_scaled_to_fit() {
    let data = png_bytes(16, 8);
    let out = Preview::image(&data, 4, 4).unwrap();
    assert!(out.width <= 4);
    assert!(out.height <= 4);
    assert!(out.width >= 1);
}

#[test]
fn image_failures_yield_nothing() {
    let garbage = vec![1u8, 2, 3, 4];
    assert!(Preview::image(&garbage, 10, 10).is_none());
    let data = png_bytes(4, 4);
    assert!(Preview::image(&data, 0, 10).is_none());
}

#[test]
fn image_budget_clamps_to_caps() {
    assert_eq!(Preview::image_budget(800, 600, 500, 900), (500, 600));
}

#[test]
fn highlight_respects_row_budget_and_resets() {
    let ss = syntect::parsing::SyntaxSet::load_defaults_newlines();
    let (theme, from_user) = fm_core::highlight::load_theme(&None);
    assert!(!from_user);
    let spaces = fm_core::highlight::tab_spaces(4);
    let lines = vec![
        "fn main() {\n".to_string(),
        "\tprintln!(\"hi\");\n".to_string(),
        "}\n".to_string(),
    ];
    let out = Preview::highlight(&lines, 2, &spaces, &ss, &theme, "rs").unwrap();
    let newlines = out.chars().filter(|c| *c == '\n').count();
    assert!(newlines <= 2);
    assert!(out.ends_with("\x1b[0m"));
    // Tabs were expanded before highlighting.
    assert!(!out.contains('\t'));
}

#[test]
fn highlight_falls_back_to_plain_text() {
    let ss = syntect::parsing::SyntaxSet::load_defaults_newlines();
    let (theme, from_user) = fm_core::highlight::load_theme(&None);
    assert!(!from_user);
    let spaces = fm_core::highlight::tab_spaces(2);
    let lines = vec!["anything at all\n".to_string()];
    let out = Preview::highlight(&lines, 5, &spaces, &ss, &theme, "no-such-ext").unwrap();
    assert!(out.ends_with("\x1b[0m"));
}

#[test]
fn theme_loading_prefers_the_user_document() {
    // An unparseable user theme falls back to the built-in one: a theme
    // still comes back, and it is not the user's.
    let (_, from_user) = fm_core::highlight::load_theme(&Some(vec![0u8, 1, 2]));
    assert!(!from_user);
    let (_, from_user) = fm_core::highlight::load_theme(&None);
    assert!(!from_user);
}

#[test]
fn highlight_with_zero_rows_still_resets() {
    let ss = syntect::parsing::SyntaxSet::load_defaults_newlines();
    let (theme, _) = fm_core::highlight::load_theme(&None);
    let spaces = fm_core::highlight::tab_spaces(2);
    let lines = vec!["text\n".to_string()];
    let out = Preview::highlight(&lines, 0, &spaces, &ss, &theme, "txt").unwrap();
    assert_eq!(out, "\x1b[0m");
}

#[test]
fn highlight_survives_an_empty_syntax_set() {
    // A set without any syntax cannot highlight: the producer fails
    // instead of crashing.
    let empty = syntect::parsing::SyntaxSet::new();
    let (theme, _) = fm_core::highlight::load_theme(&None);
    let spaces = fm_core::highlight::tab_spaces(2);
    let lines = vec!["text\n".to_string()];
    assert!(Preview::highlight(&lines, 5, &spaces, &empty, &theme, "txt").is_none());
}

#[test]
fn tab_expansion_is_exact() {
    let spaces = fm_core::highlight::tab_spaces(2);
    let out = fm_core::highlight::expand_tabs(&"a\tb".to_string(), &spaces);
    assert_eq!(out, "a  b");
}
