use omafetch::omarchy::state::parse_pacman_q_version;
use omafetch::omarchy::theme::{display_name, read_toml_string};

#[test]
fn parses_pacman_q_omarchy_line() {
    assert_eq!(
        parse_pacman_q_version("omarchy 4.0.0.r1046.gd570d99-1"),
        Some("4.0.0.r1046.gd570d99-1".to_string())
    );
}

#[test]
fn reads_toml_string_values() {
    assert_eq!(
        read_toml_string("mode = \"dark\"\naccent = \"#5fafd7\"", "mode"),
        Some("dark".to_string())
    );
}

#[test]
fn formats_theme_display_name() {
    assert_eq!(display_name("dazzle-dusk"), "Dazzle Dusk");
}

#[test]
fn prefers_state_current_when_theme_name_exists() {
    let paths = omafetch::omarchy::paths::OmarchyPaths::from_home("/home/me", None, true, true);
    assert_eq!(
        paths.current_theme_name,
        "/home/me/.local/state/omarchy/current/theme.name"
    );
}

#[test]
fn falls_back_to_config_current() {
    let paths = omafetch::omarchy::paths::OmarchyPaths::from_home("/home/me", None, false, true);
    assert_eq!(paths.current_theme_name, "/home/me/.config/omarchy/current/theme.name");
}

#[test]
fn defaults_to_state_current_when_neither_exists() {
    let paths = omafetch::omarchy::paths::OmarchyPaths::from_home("/home/me", None, false, false);
    assert_eq!(
        paths.current_theme_name,
        "/home/me/.local/state/omarchy/current/theme.name"
    );
}
