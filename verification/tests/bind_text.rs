use omafetch::bind::{
    bind_hyprland, ensure_require, remove_require, strip_legacy_inline, BindPaths, REQUIRE_LINE,
};

fn require_count(text: &str) -> usize {
    text.lines().filter(|line| line.trim() == REQUIRE_LINE).count()
}

#[test]
fn ensure_require_goes_after_autostart() {
    let source = "require(\"default.hypr.omarchy\")\nrequire(\"hypr.autostart\")\nrequire(\"hypr.looknfeel\")\n";
    assert_eq!(
        ensure_require(source),
        "require(\"default.hypr.omarchy\")\nrequire(\"hypr.autostart\")\nrequire(\"hypr.omafetch\")\n\nrequire(\"hypr.looknfeel\")\n"
    );
}

#[test]
fn ensure_require_appends_without_autostart() {
    assert_eq!(ensure_require("a = 1"), "a = 1\nrequire(\"hypr.omafetch\")\n");
    assert_eq!(ensure_require("a = 1\n"), "a = 1\nrequire(\"hypr.omafetch\")\n");
    assert_eq!(ensure_require(""), "\nrequire(\"hypr.omafetch\")\n");
}

#[test]
fn ensure_require_twice_keeps_one_require() {
    for source in [
        "require(\"default.hypr.omarchy\")\nrequire(\"hypr.autostart\")\n",
        "require(\"hypr.autostart\")",
        "x = 1\n\n\n",
        "",
        "  require(\"hypr.omafetch\")  \n\n",
    ] {
        let once = ensure_require(source);
        let twice = ensure_require(&once);
        assert_eq!(once, twice);
        assert_eq!(require_count(&twice), 1);
    }
}

#[test]
fn remove_require_drops_every_require_line() {
    let source = "require(\"hypr.autostart\")\nrequire(\"hypr.omafetch\")\n  require(\"hypr.omafetch\")\nx = 2\n\n";
    let removed = remove_require(source);
    assert_eq!(removed, "require(\"hypr.autostart\")\nx = 2\n");
    assert_eq!(require_count(&removed), 0);
    assert_eq!(remove_require(&ensure_require("require(\"hypr.autostart\")\n")), "require(\"hypr.autostart\")\n");
}

#[test]
fn strips_legacy_inline_block_and_rules() {
    let source = r#"require("hypr.autostart")

-- Prefer ~/.local/bin so a user omarchy-launch-about wrapper wins over
-- /usr/share/omarchy/bin. Omarchy's env setup puts its bin first.
do
  local home = os.getenv("HOME") or ""
  local function add(dir)
    table.insert(kept, dir)
  end
  hl.env("PATH", home)
end

-- omafetch About: sized to the default fetch
o.window("org.omarchy.omafetch", { float = true })
o.window("org.omarchy.omafetch", { center = true })
o.window("org.omarchy.omafetch", { size = { 724, 714 } })
"#;
    let stripped = strip_legacy_inline(source);
    assert_eq!(stripped, "require(\"hypr.autostart\")\n");
    let bound = ensure_require(&stripped);
    assert!(bound.contains(REQUIRE_LINE));
    assert!(!bound.contains("org.omarchy.omafetch"));
    assert!(!bound.contains("hl.env"));
}

#[test]
fn legacy_scan_keeps_unrelated_blocks() {
    let source = "do\n  x()\nend\n-- note\nlocal y = 1\n";
    assert_eq!(strip_legacy_inline(source), source);
    let block = "-- omafetch About: rules\ndo\n  if a then\n  end\n  do b() end\nend\nkeep()\n";
    assert_eq!(strip_legacy_inline(block), "\n");
    let flat = "-- omafetch About: rules\ndo\n  if a then\n  end\nend\nkeep()\n";
    assert_eq!(strip_legacy_inline(flat), "keep()\n");
}

#[test]
fn bind_paths_live_under_home() {
    let paths = BindPaths::from_home("/home/me");
    assert_eq!(paths.local_bin, "/home/me/.local/bin");
    assert_eq!(paths.hyprland_lua, "/home/me/.config/hypr/hyprland.lua");
    assert_eq!(paths.omafetch_lua, "/home/me/.config/hypr/omafetch.lua");
    assert_eq!(paths.wrapper(), "/home/me/.local/bin/omarchy-launch-about");
    assert_eq!(BindPaths::from_home("/root/").wrapper(), "/root/.local/bin/omarchy-launch-about");
}

#[test]
fn bind_hyprland_strips_then_requires() {
    let source = "require(\"hypr.autostart\")\n-- omafetch About: rules\no.window(\"org.omarchy.omafetch\", { float = true })\nkeep()\n";
    assert_eq!(
        bind_hyprland(source),
        "require(\"hypr.autostart\")\nrequire(\"hypr.omafetch\")\n\nkeep()\n"
    );
}

#[test]
fn bind_hyprland_twice_is_once() {
    for source in [
        "require(\"default.hypr.omarchy\")\nrequire(\"hypr.autostart\")\n",
        "require(\"hypr.autostart\") -- start\nx = 1\n",
        "do\n  x()\nend\n-- omafetch About: rules\ndo\n  y()\nend\n",
        "",
        "a\r\nb\n",
    ] {
        let once = bind_hyprland(source);
        assert_eq!(bind_hyprland(&once), once);
        assert_eq!(require_count(&once), 1);
    }
}

#[test]
fn bind_hyprland_second_pass_drops_kept_carriage_return() {
    let once = bind_hyprland("x\r\r\ny\n");
    assert_eq!(once, "x\r\ny\nrequire(\"hypr.omafetch\")\n");
    assert_eq!(bind_hyprland(&once), "x\ny\nrequire(\"hypr.omafetch\")\n");
}

#[test]
fn bind_text_keeps_single_require() {
    let once = bind_hyprland("require(\"default.hypr.omarchy\")\nrequire(\"hypr.autostart\")\n");
    assert!(once.contains(REQUIRE_LINE));
    assert!(once.contains("require(\"hypr.autostart\")"));
    assert_eq!(once.matches(REQUIRE_LINE).count(), 1);
    let twice = bind_hyprland(&once);
    assert_eq!(twice.matches(REQUIRE_LINE).count(), 1);
}

#[test]
fn unbind_text_removes_require() {
    let bound = bind_hyprland("require(\"hypr.autostart\")\n");
    let unbound = remove_require(&bound);
    assert!(!unbound.contains(REQUIRE_LINE));
    assert!(unbound.contains("require(\"hypr.autostart\")"));
}

#[test]
fn bind_text_drops_legacy_rules() {
    let source = r#"require("hypr.autostart")

-- Prefer ~/.local/bin so a user omarchy-launch-about wrapper wins over
-- /usr/share/omarchy/bin. Omarchy's env setup puts its bin first.
do
  local home = os.getenv("HOME") or ""
  hl.env("PATH", home)
end

-- omafetch About: sized to the default fetch
o.window("org.omarchy.omafetch", { float = true })
"#;
    let bound = bind_hyprland(source);
    assert_eq!(bound, "require(\"hypr.autostart\")\nrequire(\"hypr.omafetch\")\n");
    assert!(!bound.contains("org.omarchy.omafetch"));
    assert!(!bound.contains("hl.env"));
}

#[test]
fn strip_legacy_twice_is_once() {
    for source in [
        "require(\"hypr.autostart\")\n-- omafetch About: x\no.window(\"org.omarchy.omafetch\")\nkeep()\n",
        "do\n  x()\nend\n  \n\n",
        "",
    ] {
        let once = strip_legacy_inline(source);
        assert_eq!(strip_legacy_inline(&once), once);
    }
}

#[test]
fn unbind_text_gives_back_the_file() {
    for source in [
        "require(\"hypr.autostart\")\n",
        "a = 1\n",
        "require(\"default.hypr.omarchy\")\nrequire(\"hypr.autostart\")\n",
    ] {
        assert_eq!(remove_require(&bind_hyprland(source)), source);
    }
}
