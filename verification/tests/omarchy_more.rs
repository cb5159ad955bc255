use omafetch::omarchy::paths::{current_dir, install_dir, path_join, OmarchyPaths};
use omafetch::omarchy::state::{discover_version, OmarchyState};
use omafetch::omarchy::theme::{discover, discover_wallpaper, display_name, read_toml_string};

fn s(v: &str) -> Option<String> {
    Some(v.to_string())
}

#[test]
fn paths_follow_the_theme_state() {
    assert_eq!(path_join("/home/me", "x"), "/home/me/x");
    assert_eq!(path_join("/home/me/", "x"), "/home/me/x");
    assert_eq!(path_join("", "x"), "x");
    assert_eq!(current_dir("/h", true, true), "/h/.local/state/omarchy/current");
    assert_eq!(current_dir("/h", false, true), "/h/.config/omarchy/current");
    assert_eq!(current_dir("/h", false, false), "/h/.local/state/omarchy/current");
    assert_eq!(install_dir(None), "/usr/share/omarchy");
    assert_eq!(install_dir(s("")), "/usr/share/omarchy");
    assert_eq!(install_dir(s("/src/omarchy")), "/src/omarchy");

    let paths = OmarchyPaths::from_home("/h", None, false, true);
    assert_eq!(paths.version, "/usr/share/omarchy/version");
    assert_eq!(paths.current_theme_name, "/h/.config/omarchy/current/theme.name");
    assert_eq!(paths.current_colors, "/h/.config/omarchy/current/theme/colors.toml");
    assert_eq!(paths.current_background, "/h/.config/omarchy/current/background");
    assert!(paths.is_packaged_install());
}

#[test]
fn packaged_install_compares_components() {
    let at = |dir: &str| OmarchyPaths::from_home("/h", s(dir), false, false).is_packaged_install();
    assert!(at("/usr/share/omarchy/"));
    assert!(at("/usr//share/./omarchy"));
    assert!(!at("/usr/share/omarchy2"));
    assert!(!at("usr/share/omarchy"));
    assert!(!at("/home/me/omarchy"));
}

#[test]
fn version_depends_on_the_install() {
    assert_eq!(discover_version(false, s("abc123"), None, None), s("dev (abc123)"));
    assert_eq!(discover_version(false, None, s("omarchy 3.0"), s("9")), s("dev"));
    assert_eq!(discover_version(true, None, s("omarchy 3.0.1-1"), s("9")), s("3.0.1-1"));
    assert_eq!(discover_version(true, None, s("omarchy"), s("3.0.0")), s("3.0.0"));
    assert_eq!(discover_version(true, None, None, None), None);
}

#[test]
fn theme_label_joins_name_and_variant() {
    let theme = discover(s("tokyo-night"), s("# comment\nmode = \"dark\"\naccent = \"#7aa2f7\"\n"), &vec![
        "notes.txt".to_string(),
        "1-wall.jpg".to_string(),
        "2.png".to_string(),
    ]);
    assert_eq!(theme.variant, s("dark"));
    assert_eq!(theme.accent, s("#7aa2f7"));
    assert_eq!(theme.wallpaper, s("1-wall.jpg"));
    let state = OmarchyState::discover(s("3.0"), theme);
    assert_eq!(state.theme_label(), "Tokyo Night (dark)");
    assert_eq!(OmarchyState::default().theme_label(), "unknown");
}

#[test]
fn toml_reader_skips_comments() {
    assert_eq!(read_toml_string("# mode = \"x\"\n  mode=light  ", "mode"), s("light"));
    assert_eq!(read_toml_string("accent = 1", "mode"), None);
    assert_eq!(discover_wallpaper(&Vec::new()), None);
}

#[test]
fn display_names_capitalize_words() {
    assert_eq!(display_name("catppuccin_latte"), "Catppuccin Latte");
    assert_eq!(display_name("--rose--pine-"), "Rose Pine");
    assert_eq!(display_name("émile"), "Émile");
    assert_eq!(display_name(""), "");
}

#[test]
fn ascii_display_names_capitalize_first_letters() {
    assert_eq!(display_name("tokyo_night-2x"), "Tokyo Night 2x");
    assert_eq!(display_name("ristretto"), "Ristretto");
}
