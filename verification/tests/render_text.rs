use omafetch::render::text::{format_bytes, format_duration, format_gib, truncate_value};

#[test]
fn formats_gib() {
    assert_eq!(format_gib(1_048_576), "1.0 GiB");
}

#[test]
fn formats_bytes() {
    assert_eq!(format_bytes(1_073_741_824), "1.0 GiB");
}

#[test]
fn formats_duration() {
    assert_eq!(format_duration(13_320), "3h 42m");
}

#[test]
fn shortens_gpu_before_truncating() {
    assert_eq!(
        truncate_value(
            "gpu",
            "AMD Strix Halo [Radeon Graphics / Radeon 8050S Graphics / Radeon 8060S Graphics] (rev c1)",
            30
        ),
        "Radeon 8060S Graphics"
    );
}

#[test]
fn truncates_to_width() {
    assert_eq!(
        truncate_value("theme", "Dazzle Dusk (dark)", 10),
        "Dazzle ..."
    );
}

#[test]
fn printable_ascii_truncates_one_column_per_character() {
    assert_eq!(truncate_value("os", "abcdefghij", 10), "abcdefghij");
    assert_eq!(truncate_value("os", "abcdefghij", 9), "abcdef...");
    assert_eq!(truncate_value("os", "abcdefghij", 4), "a...");
    assert_eq!(truncate_value("os", "abcdefghij", 3), "...");
    assert_eq!(truncate_value("os", "abcdefghij", 0), "");
}
