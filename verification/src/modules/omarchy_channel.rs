//! The Omarchy package channel.

use vstd::prelude::*;
use crate::text::{chars_of, concat, contains, contains_exec, eq_exec, opt_view, string_of};
use crate::modules::types::Module;
use crate::modules::registry::{key_name, ModuleKey};

verus! {

/// The Omarchy package channel.
pub struct OmarchyChannel;

impl Module for OmarchyChannel {
    fn name(&self) -> (r: &'static str)
        ensures
            r@ == key_name(ModuleKey::OmarchyChannel),
    {
        "omarchy-channel"
    }

    fn label(&self) -> (r: &'static str)
        ensures
            r@ == "Channel"@,
    {
        "Channel"
    }
}

/// The channel a mirror list or pacman configuration points at: `stable`,
/// `rc` or `edge` by the Omarchy host or path it names, looked for in that
/// order, since the stable and rc mirror hosts contain the edge host's name.
pub open spec fn channel_of(input: Seq<char>) -> Option<Seq<char>> {
    if contains(input, "stable-mirror.omarchy.org"@) || contains(input, "pkgs.omarchy.org/stable"@) {
        Some("stable"@)
    } else if contains(input, "rc-mirror.omarchy.org"@) || contains(input, "pkgs.omarchy.org/rc"@) {
        Some("rc"@)
    } else if contains(input, "mirror.omarchy.org"@) || contains(input, "pkgs.omarchy.org/edge"@) {
        Some("edge"@)
    } else {
        None
    }
}

/// The channel named in the contents of a mirror list or pacman
/// configuration.
pub fn channel_from(input: &str) -> (r: Option<String>)
    ensures
        opt_view(r) == channel_of(input@),
{
    let s = chars_of(input);
    if contains_exec(&s, &chars_of("stable-mirror.omarchy.org")) || contains_exec(
        &s,
        &chars_of("pkgs.omarchy.org/stable"),
    ) {
        Some(String::from_str("stable"))
    } else if contains_exec(&s, &chars_of("rc-mirror.omarchy.org")) || contains_exec(
        &s,
        &chars_of("pkgs.omarchy.org/rc"),
    ) {
        Some(String::from_str("rc"))
    } else if contains_exec(&s, &chars_of("mirror.omarchy.org")) || contains_exec(
        &s,
        &chars_of("pkgs.omarchy.org/edge"),
    ) {
        Some(String::from_str("edge"))
    } else {
        None
    }
}

/// The channel value: the channel when the mirror list and the pacman
/// configuration agree, both when they differ, whichever is known otherwise.
pub open spec fn channel_text(mirror: Option<Seq<char>>, packages: Option<Seq<char>>) -> Seq<char> {
    match (mirror, packages) {
        (Some(m), Some(p)) => if m == p {
            m
        } else {
            "mirror="@ + m + " packages="@ + p
        },
        (Some(m), None) => "mirror="@ + m,
        (None, Some(p)) => "packages="@ + p,
        (None, None) => "unknown"@,
    }
}

impl OmarchyChannel {
    /// The channel value, given the contents of `/etc/pacman.d/mirrorlist`
    /// and `/etc/pacman.conf`.
    pub fn value(mirrorlist: Option<String>, pacman_conf: Option<String>) -> (r: String)
        ensures
            r@ == channel_text(
                match opt_view(mirrorlist) {
                    Some(s) => channel_of(s),
                    None => None,
                },
                match opt_view(pacman_conf) {
                    Some(s) => channel_of(s),
                    None => None,
                },
            ),
    {
        let mirror = match mirrorlist {
            Some(s) => channel_from(s.as_str()),
            None => None,
        };
        let packages = match pacman_conf {
            Some(s) => channel_from(s.as_str()),
            None => None,
        };
        match (mirror, packages) {
            (Some(m), Some(p)) => {
                let mc = chars_of(m.as_str());
                let pc = chars_of(p.as_str());
                if eq_exec(&mc, &pc) {
                    m
                } else {
                    let mut out = concat(&chars_of("mirror="), &mc);
                    out = concat(&out, &chars_of(" packages="));
                    out = concat(&out, &pc);
                    string_of(&out)
                }
            },
            (Some(m), None) => string_of(&concat(&chars_of("mirror="), &chars_of(m.as_str()))),
            (None, Some(p)) => string_of(&concat(&chars_of("packages="), &chars_of(p.as_str()))),
            (None, None) => String::from_str("unknown"),
        }
    }
}

/// The stable mirror host names the generic mirror host too, yet a file that
/// names it is on the stable channel.
pub proof fn lemma_stable_before_generic_host(input: Seq<char>)
    requires
        contains(input, "stable-mirror.omarchy.org"@) || contains(input, "pkgs.omarchy.org/stable"@),
    ensures
        channel_of(input) == Some("stable"@),
{
}

} // verus!
