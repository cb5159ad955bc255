use omafetch::modules::types::ModuleOutput;
use omafetch::render::document::{RenderDocument, RenderRow};

fn output(name: &'static str, label: &str, value: &str) -> ModuleOutput {
    ModuleOutput::new(name, label, value)
}

fn row_summary(document: &RenderDocument<'_>) -> Vec<String> {
    document
        .rows
        .iter()
        .map(|row| match row {
            RenderRow::Gap => "gap".to_string(),
            RenderRow::Output {
                output,
                value,
                show_label,
            } => format!(
                "{}:{}:{}",
                output.name,
                if *show_label {
                    output.label.as_str()
                } else {
                    ""
                },
                value
            ),
        })
        .collect()
}

#[test]
fn inserts_group_gaps_in_default_output() {
    let outputs = [
        output("omarchy", "Omarchy", "v1"),
        output("theme", "Theme", "Dazzle"),
        output("host", "Host", "Box"),
        output("wm", "WM", "Hyprland"),
        output("display", "Display", "DP-1"),
        output("memory", "Memory", "1.0 GiB"),
        output("packages", "Packages", "Pacman (1)"),
    ];

    assert_eq!(
        row_summary(&RenderDocument::from_outputs(&outputs, true)),
        vec![
            "omarchy:Omarchy:v1",
            "gap",
            "theme:Theme:Dazzle",
            "host:Host:Box",
            "gap",
            "wm:WM:Hyprland",
            "gap",
            "display:Display:DP-1",
            "gap",
            "memory:Memory:1.0 GiB",
            "gap",
            "packages:Packages:Pacman (1)",
        ]
    );
}

#[test]
fn compact_output_has_no_group_gaps() {
    let outputs = [
        output("omarchy", "Omarchy", "v1"),
        output("theme", "Theme", "Dazzle"),
        output("wm", "WM", "Hyprland"),
    ];

    assert_eq!(
        row_summary(&RenderDocument::from_outputs(&outputs, false)),
        vec!["omarchy:Omarchy:v1", "theme:Theme:Dazzle", "wm:WM:Hyprland",]
    );
}

#[test]
fn multi_line_values_keep_label_on_first_row() {
    let outputs = [output(
        "disk",
        "Disk",
        "root  1.0 GiB / 2.0 GiB\nhome  3.0 GiB / 4.0 GiB",
    )];

    assert_eq!(
        row_summary(&RenderDocument::from_outputs(&outputs, false)),
        vec![
            "disk:Disk:root  1.0 GiB / 2.0 GiB",
            "disk::home  3.0 GiB / 4.0 GiB"
        ]
    );
}

#[test]
fn no_gap_before_the_first_row() {
    let outputs = [
        output("theme", "Theme", "Dazzle"),
        output("wm", "WM", "Hyprland"),
    ];

    assert_eq!(
        row_summary(&RenderDocument::from_outputs(&outputs, true)),
        vec!["theme:Theme:Dazzle", "gap", "wm:WM:Hyprland"]
    );
}

#[test]
fn label_width_counts_shown_labels_in_bytes() {
    let outputs = [
        output("disk", "Disk", "a\nb"),
        output("packages", "Packages", "Pacman (1)"),
        output("theme", "Thème", "x"),
    ];
    let document = RenderDocument::from_outputs(&outputs, false);
    assert_eq!(document.label_width(), 8);
    assert_eq!(document.len(), 4);

    let accented = [output("theme", "Thèmé", "x")];
    assert_eq!(RenderDocument::from_outputs(&accented, false).label_width(), 7);
    assert_eq!(RenderDocument::from_outputs(&[], true).label_width(), 0);
}

#[test]
fn empty_value_gives_no_rows() {
    let outputs = [output("cpu", "CPU", "")];
    assert_eq!(RenderDocument::from_outputs(&outputs, true).len(), 0);
}
