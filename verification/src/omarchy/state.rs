//! What the fetch shows about Omarchy itself: its version and theme.

use vstd::prelude::*;
use crate::text::{all_ascii, chars_of, concat, opt_view, string_of, views, words, words_exec};
use crate::omarchy::theme::{ascii_display_name_of, display_name, display_name_of, ThemeIdentity};

verus! {

/// The installed Omarchy version and the current theme.
#[derive(Debug, Clone, PartialEq, Eq, Default)]
pub struct OmarchyState {
    pub version: Option<String>,
    pub theme_name: Option<String>,
    pub variant: Option<String>,
    pub accent: Option<String>,
    pub wallpaper: Option<String>,
}

/// The theme line: the theme's display name, with its variant in
/// parentheses when there is one; `unknown` without a theme name.
pub open spec fn theme_label_of(theme: Option<Seq<char>>, variant: Option<Seq<char>>) -> Seq<char> {
    match theme {
        Some(t) => match variant {
            Some(v) => display_name_of(t) + " ("@ + v + ")"@,
            None => display_name_of(t),
        },
        None => "unknown"@,
    }
}

/// The theme line for an ASCII theme name: each word of the name with its
/// first letter made a capital, then the variant in parentheses when there
/// is one.
pub open spec fn ascii_theme_label_of(theme: Seq<char>, variant: Option<Seq<char>>) -> Seq<char> {
    match variant {
        Some(v) => ascii_display_name_of(theme) + " ("@ + v + ")"@,
        None => ascii_display_name_of(theme),
    }
}

/// The version an Omarchy installation reports: `dev` (with the commit
/// hash when known) for a checkout outside the packaged location; otherwise
/// the package version, or the contents of the `version` file.
pub open spec fn version_of(
    packaged: bool,
    git_hash: Option<Seq<char>>,
    pacman_q: Option<Seq<char>>,
    version_file: Option<Seq<char>>,
) -> Option<Seq<char>> {
    if !packaged {
        match git_hash {
            Some(h) => Some("dev ("@ + h + ")"@),
            None => Some("dev"@),
        }
    } else {
        match match pacman_q {
            Some(l) => pacman_q_version(l),
            None => None,
        } {
            Some(v) => Some(v),
            None => version_file,
        }
    }
}

/// The version in a `pacman -Q` line: its second word.
pub open spec fn pacman_q_version(line: Seq<char>) -> Option<Seq<char>> {
    if words(line).len() > 1 {
        Some(words(line)[1])
    } else {
        None
    }
}

/// The version in a `pacman -Q omarchy` line (`omarchy 4.0.0-1` gives
/// `4.0.0-1`).
pub fn parse_pacman_q_version(line: &str) -> (r: Option<String>)
    ensures
        opt_view(r) == pacman_q_version(line@),
{
    let ws = words_exec(&chars_of(line));
    if ws.len() > 1 {
        assert(views(ws@)[1] == ws@[1]@);
        Some(string_of(&ws[1]))
    } else {
        None
    }
}

/// The Omarchy version, given whether the install is the packaged one, the
/// output of `git rev-parse --short HEAD` in a checkout, the output of
/// `pacman -Q omarchy`, and the contents of the `version` file.
pub fn discover_version(
    packaged: bool,
    git_hash: Option<String>,
    pacman_q: Option<String>,
    version_file: Option<String>,
) -> (r: Option<String>)
    ensures
        opt_view(r) == version_of(
            packaged,
            opt_view(git_hash),
            opt_view(pacman_q),
            opt_view(version_file),
        ),
{
    if !packaged {
        return Some(
            match git_hash {
                Some(h) => string_of(
                    &concat(&concat(&chars_of("dev ("), &chars_of(h.as_str())), &chars_of(")")),
                ),
                None => String::from_str("dev"),
            },
        );
    }
    let from_pacman = match pacman_q {
        Some(l) => parse_pacman_q_version(l.as_str()),
        None => None,
    };
    match from_pacman {
        Some(v) => Some(v),
        None => version_file,
    }
}

impl OmarchyState {
    /// The state for a discovered installation: its version and theme.
    pub fn discover(version: Option<String>, theme: ThemeIdentity) -> (r: Self)
        ensures
            opt_view(r.version) == opt_view(version),
            opt_view(r.theme_name) == opt_view(theme.name),
            opt_view(r.variant) == opt_view(theme.variant),
            opt_view(r.accent) == opt_view(theme.accent),
            opt_view(r.wallpaper) == opt_view(theme.wallpaper),
    {
        OmarchyState {
            version,
            theme_name: theme.name,
            variant: theme.variant,
            accent: theme.accent,
            wallpaper: theme.wallpaper,
        }
    }

    /// The theme line shown for this state.
    pub fn theme_label(&self) -> (r: String)
        ensures
            r@ == theme_label_of(opt_view(self.theme_name), opt_view(self.variant)),
            match self.theme_name {
                Some(t) => all_ascii(t@) ==> r@ == ascii_theme_label_of(t@, opt_view(self.variant)),
                None => true,
            },
    {
        match &self.theme_name {
            Some(t) => {
                let name = display_name(t.as_str());
                match &self.variant {
                    Some(v) => {
                        let mut out = concat(&chars_of(name.as_str()), &chars_of(" ("));
                        out = concat(&out, &chars_of(v.as_str()));
                        out = concat(&out, &chars_of(")"));
                        string_of(&out)
                    },
                    None => name,
                }
            },
            None => String::from_str("unknown"),
        }
    }
}

} // verus!
