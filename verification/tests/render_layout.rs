use omafetch::modules::types::ModuleOutput;
use omafetch::render::document::RenderDocument;
use omafetch::render::layout::{highlight_value, render_document, terminal_width};
use omafetch::render::sparkle::{fnv1a, sparkle_for_row, unicode_sparkles};

#[test]
fn highlights_by_module() {
    assert_eq!(highlight_value("cpu", "unknown"), "\x1b[2munknown\x1b[0m");
    assert_eq!(highlight_value("theme", "Dazzle"), "\x1b[36mDazzle\x1b[39m");
    assert_eq!(highlight_value("wm", "Hyprland"), "\x1b[34mHyprland\x1b[39m");
    assert_eq!(
        highlight_value("kernel-config", "THP madvise"),
        "\x1b[36mTHP\x1b[39m \x1b[32mmadvise\x1b[39m"
    );
    assert_eq!(
        highlight_value("memory", "1.0 GiB / 2.0 GiB"),
        "\x1b[33m1.0 GiB\x1b[39m / \x1b[2m2.0 GiB\x1b[0m"
    );
    assert_eq!(
        highlight_value("disk", "root  1.0 GiB / 2.0 GiB"),
        "\x1b[36mroot\x1b[39m  \x1b[33m1.0 GiB\x1b[39m / \x1b[2m2.0 GiB\x1b[0m"
    );
    assert_eq!(
        highlight_value("packages", "Pacman (1) AUR (2)"),
        "\x1b[36mPacman\x1b[39m (1) \x1b[35mAUR\x1b[39m (2)"
    );
    assert_eq!(
        highlight_value("rootfs", "btrfs encrypted @"),
        "\x1b[36mbtrfs\x1b[39m \x1b[32mencrypted\x1b[39m @"
    );
    assert_eq!(highlight_value("uptime", "3h 42m"), "3h 42m");
}

#[test]
fn renders_rows_without_a_logo() {
    let outputs = [
        ModuleOutput::new("cpu", "CPU", "Ryzen"),
        ModuleOutput::new("memory", "Memory", "unknown"),
    ];
    let document = RenderDocument::from_outputs(&outputs, true);
    let rendered = render_document("", &document, 80, false);
    assert_eq!(
        rendered,
        "\n  \x1b[2mCPU   \x1b[0m  Ryzen\n\n  \x1b[2mMemory\x1b[0m  \x1b[2munknown\x1b[0m\n"
    );
}

#[test]
fn renders_logo_beside_rows() {
    let outputs = [ModuleOutput::new("os", "OS", "Arch Linux")];
    let document = RenderDocument::from_outputs(&outputs, false);
    let rendered = render_document("ab\nc", &document, 40, false);
    assert_eq!(
        rendered,
        "\n    \x1b[2mOS\x1b[0m  Arch Linux\n\x1b[34mab\x1b[0m  \n\x1b[35mc\x1b[0m   \n"
    );
}

#[test]
fn cuts_values_to_the_terminal() {
    let outputs = [ModuleOutput::new("theme", "Theme", "Dazzle Dusk (dark) and more words")];
    let document = RenderDocument::from_outputs(&outputs, false);
    let rendered = render_document("", &document, 10, false);
    assert_eq!(rendered, "\n  \x1b[2mTheme\x1b[0m  \x1b[36mDazzle Du...\x1b[39m\n");
}

#[test]
fn sparkle_rows_have_the_requested_cells() {
    assert_eq!(sparkle_for_row("disk", "Disk", "x", 0, true), "");
    let row = sparkle_for_row("cpu", "CPU", "Ryzen", 12, false);
    let visible = row
        .split('\x1b')
        .map(|part| part.split_once('m').map(|(_, rest)| rest).unwrap_or(part))
        .collect::<String>();
    assert_eq!(visible.chars().count(), 12);
}

#[test]
fn fnv1a_matches_reference_values() {
    assert_eq!(fnv1a(b""), 0xcbf29ce484222325);
    assert_eq!(fnv1a(b"a"), 0xaf63dc4c8601ec8c);
    assert_eq!(fnv1a(b"foobar"), 0x85944171f73967e8);
}

#[test]
fn utf8_locales_enable_unicode_sparkles() {
    assert!(unicode_sparkles(&vec!["en_US.utf8".to_string()]));
    assert!(unicode_sparkles(&vec!["C".to_string(), "de_DE.UTF-8".to_string()]));
    assert!(!unicode_sparkles(&vec!["C".to_string()]));
    assert!(!unicode_sparkles(&Vec::new()));
}

#[test]
fn terminal_width_sources() {
    assert_eq!(terminal_width(Some(120), Some("80".to_string())), 120);
    assert_eq!(terminal_width(Some(0), Some("80".to_string())), 80);
    assert_eq!(terminal_width(None, Some("0".to_string())), 100);
    assert_eq!(terminal_width(None, Some("wide".to_string())), 100);
    assert_eq!(terminal_width(None, None), 100);
}
