use omafetch::probe::fontconfig::{family_from_fc_match, family_from_fonts_conf};

#[test]
fn parses_omarchy_font_set_fonts_conf() {
    let input = r#"<?xml version="1.0"?>
<!DOCTYPE fontconfig SYSTEM "fonts.dtd">
<fontconfig>
  <match target="pattern">
<test name="family" qual="any">
  <string>monospace</string>
</test>
<edit name="family" mode="prepend_first" binding="strong">
  <string>JetBrainsMono Nerd Font</string>
</edit>
  </match>
</fontconfig>
"#;

    assert_eq!(
        family_from_fonts_conf(input),
        Some("JetBrainsMono Nerd Font".to_string())
    );
}

#[test]
fn parses_assign_monospace_among_other_families() {
    let input = r#"<fontconfig>
  <match target="pattern">
<test name="family" qual="any">
  <string>sans-serif</string>
</test>
<edit name="family" mode="assign" binding="strong">
  <string>Liberation Sans</string>
</edit>
  </match>
  <match target="pattern">
<test qual="any" name="family">
  <string>monospace</string>
</test>
<edit name="family" mode="assign" binding="strong">
  <string>CaskaydiaMono Nerd Font</string>
</edit>
  </match>
  <alias>
<family>monospace</family>
<accept>
  <family>Noto Color Emoji</family>
</accept>
  </alias>
</fontconfig>
"#;

    assert_eq!(
        family_from_fonts_conf(input),
        Some("CaskaydiaMono Nerd Font".to_string())
    );
}

#[test]
fn ignores_fonts_conf_without_monospace_match() {
    let input = r#"<fontconfig>
  <match target="pattern">
<test name="family" qual="any">
  <string>sans-serif</string>
</test>
<edit name="family" mode="assign" binding="strong">
  <string>Liberation Sans</string>
</edit>
  </match>
</fontconfig>
"#;

    assert_eq!(family_from_fonts_conf(input), None);
}

#[test]
fn parses_fc_match_first_family() {
    assert_eq!(
        family_from_fc_match("JetBrainsMono Nerd Font,JetBrainsMono NF\n"),
        Some("JetBrainsMono Nerd Font".to_string())
    );
    assert_eq!(family_from_fc_match("\n"), None);
}
