use omafetch::render::sparkle::sparkle_for_row;

#[test]
fn sparkle_is_stable() {
    assert_eq!(
        sparkle_for_row("disk", "Disk", "root 1.0 GiB / 2.0 GiB", 16, true),
        sparkle_for_row("disk", "Disk", "root 1.0 GiB / 2.0 GiB", 16, true)
    );
}

fn visible(text: &str) -> String {
    let mut out = String::new();
    let mut chars = text.chars().peekable();
    while let Some(c) = chars.next() {
        if c == '\x1b' && chars.peek() == Some(&'[') {
            for d in chars.by_ref() {
                if d == 'm' {
                    break;
                }
            }
        } else {
            out.push(c);
        }
    }
    out
}

#[test]
fn sparkle_row_is_width_cells_with_few_glyphs() {
    assert_eq!(sparkle_for_row("disk", "Disk", "x", 0, true), "");
    for (module, value) in [("disk", "root 1.0 GiB / 2.0 GiB"), ("cpu", "Ryzen"), ("wm", "Hyprland")] {
        for width in [1usize, 2, 7, 16, 40] {
            for unicode in [true, false] {
                let row = visible(&sparkle_for_row(module, "Label", value, width, unicode));
                assert_eq!(row.chars().count(), width);
                assert!(row.chars().filter(|c| *c != ' ').count() <= 6);
            }
        }
    }
}
