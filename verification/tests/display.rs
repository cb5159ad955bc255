use omafetch::modules::display::{join_displays, monitors_from_hyprctl, DisplayInfo};

// The refresh rate and the scale are numbers the fetch formats through
// floating point; these helpers do that as the program does.
fn format_mode(resolution: &str) -> String {
    let Some((size, refresh)) = resolution.split_once('@') else {
        return resolution.to_string();
    };
    let hz = refresh
        .parse::<f64>()
        .ok()
        .map(|value| format!("{} Hz", value.round() as u64))
        .unwrap_or_else(|| format!("{refresh} Hz"));
    format!("{size} {hz}")
}

fn format_scale(scale: &str) -> String {
    scale
        .parse::<f64>()
        .ok()
        .map(|value| {
            if value.fract() == 0.0 {
                format!("{}x", value as u64)
            } else {
                format!("{value:.2}x")
            }
        })
        .unwrap_or_else(|| format!("{scale}x"))
}

fn display_from_hyprctl(input: &str) -> Option<String> {
    let infos = monitors_from_hyprctl(input)
        .into_iter()
        .map(|m| DisplayInfo {
            model: m.model,
            mode: m.resolution.as_deref().map(format_mode),
            scale: m.scale.as_deref().map(format_scale),
        })
        .collect::<Vec<_>>();
    join_displays(&infos)
}

#[test]
fn parses_hyprctl_display() {
    let input =
        "Monitor DP-1 (ID 0):\n\t3840x2160@120.00 at 0x0\n\tmodel: PA32QCV\n\tscale: 2.00\n";

    assert_eq!(
        display_from_hyprctl(input),
        Some("PA32QCV 3840x2160 120 Hz 2x".to_string())
    );
}

#[test]
fn reads_each_monitor_block() {
    let input = "Monitor DP-1 (ID 0):\n\t2560x1440@59.95 at 0x0\n\tmodel: A\n\tscale: 1.00\nMonitor eDP-1 (ID 1):\n\tmodel: B\nMonitor HDMI-A-1 (ID 2):\n\t1920x1080@60.00 at 2560x0\n";
    let monitors = monitors_from_hyprctl(input);
    assert_eq!(monitors.len(), 2);
    assert_eq!(monitors[0].model.as_deref(), Some("A"));
    assert_eq!(monitors[0].resolution.as_deref(), Some("2560x1440@59.95"));
    assert_eq!(monitors[0].scale.as_deref(), Some("1.00"));
    assert_eq!(monitors[1].model, None);
    assert_eq!(monitors[1].resolution.as_deref(), Some("1920x1080@60.00"));
    assert_eq!(
        display_from_hyprctl(input),
        Some("A 2560x1440 60 Hz 1x, 1920x1080 60 Hz".to_string())
    );
}

#[test]
fn no_monitor_with_a_mode_gives_nothing() {
    assert_eq!(display_from_hyprctl(""), None);
    assert_eq!(display_from_hyprctl("Monitor X:\n\tmodel: Y\n"), None);
    assert_eq!(
        DisplayInfo {
            model: Some("M".to_string()),
            mode: None,
            scale: Some("2x".to_string())
        }
        .format(),
        None
    );
}
