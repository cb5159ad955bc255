use omafetch::modules::omarchy_channel::channel_from;
use omafetch::modules::omarchy_updated::last_upgrade_from;

#[test]
fn detects_stable_before_generic_mirror_host() {
    assert_eq!(
        channel_from("Server = https://stable-mirror.omarchy.org/$repo/os/$arch\n"),
        Some("stable".to_string())
    );
    assert_eq!(
        channel_from("Include = https://pkgs.omarchy.org/stable/$repo\n"),
        Some("stable".to_string())
    );
}

#[test]
fn detects_rc_channel() {
    assert_eq!(
        channel_from("Server = https://rc-mirror.omarchy.org/$repo/os/$arch\n"),
        Some("rc".to_string())
    );
    assert_eq!(
        channel_from("Include = https://pkgs.omarchy.org/rc/$repo\n"),
        Some("rc".to_string())
    );
}

#[test]
fn detects_edge_channel() {
    assert_eq!(
        channel_from("Server = https://mirror.omarchy.org/$repo/os/$arch\n"),
        Some("edge".to_string())
    );
    assert_eq!(
        channel_from("Include = https://pkgs.omarchy.org/edge/$repo\n"),
        Some("edge".to_string())
    );
}

#[test]
fn unrelated_mirrorlist_is_unknown() {
    assert_eq!(
        channel_from("Server = https://geo.mirror.pkgbuild.com/$repo/os/$arch\n"),
        None
    );
}

#[test]
fn last_upgraded_line_wins() {
    let input = "[2026-07-01T09:00:00-0400] [ALPM] installed omafetch (0.1.0-1)\n[2026-07-15T10:00:00-0400] [ALPM] upgraded linux (6.15.1-1 -> 6.15.2-1)\n[2026-08-01T12:34:56-0400] [ALPM] upgraded omarchy (4.0.0-1 -> 4.0.0-2)\n[2026-08-01T12:35:00-0400] [ALPM] running '30-systemd-update.hook'\n";

    assert_eq!(
        last_upgrade_from(input),
        Some("2026-08-01 12:34:56".to_string())
    );
}

#[test]
fn empty_or_missing_upgrade_yields_none() {
    assert_eq!(last_upgrade_from(""), None);
    assert_eq!(
        last_upgrade_from("[2026-08-01T12:34:56-0400] [ALPM] installed foo (1-1)\n"),
        None
    );
}
