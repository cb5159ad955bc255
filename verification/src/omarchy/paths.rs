//! Where an Omarchy installation and the current theme live.

use vstd::prelude::*;
use crate::text::{
    chars_of, concat, ends_with, ends_with_exec, eq_exec, opt_view, split_pat, split_pat_exec,
    starts_with, starts_with_exec, string_of, views,
};

verus! {

/// The install directory of the packaged Omarchy.
pub const PACKAGED_INSTALL: &'static str = "/usr/share/omarchy";

/// `Path::join` with a relative path: a `/` goes between the two unless the
/// base is empty or already ends with one.
pub open spec fn path_join_of(base: Seq<char>, rel: Seq<char>) -> Seq<char> {
    if base.len() == 0 || ends_with(base, "/"@) {
        base + rel
    } else {
        base + "/"@ + rel
    }
}

/// `Path::join` with a relative path.
pub fn path_join(base: &str, rel: &str) -> (r: String)
    ensures
        r@ == path_join_of(base@, rel@),
{
    let b = chars_of(base);
    if b.len() == 0 || ends_with_exec(&b, &chars_of("/")) {
        string_of(&concat(&b, &chars_of(rel)))
    } else {
        string_of(&concat(&concat(&b, &chars_of("/")), &chars_of(rel)))
    }
}

/// The pieces of a path that name something: neither empty nor `.`.
pub open spec fn named_pieces(parts: Seq<Seq<char>>) -> Seq<Seq<char>>
    decreases parts.len(),
{
    if parts.len() == 0 {
        seq![]
    } else {
        let prev = named_pieces(parts.drop_last());
        if parts.last().len() == 0 || parts.last() == "."@ {
            prev
        } else {
            prev.push(parts.last())
        }
    }
}

/// Whether a path names the packaged install directory, component by
/// component (`/usr/share/omarchy/` and `/usr/./share//omarchy` do too).
pub open spec fn is_packaged_dir(p: Seq<char>) -> bool {
    starts_with(p, "/"@) && named_pieces(split_pat(p, "/"@)) == seq!["usr"@, "share"@, "omarchy"@]
}

/// The install directory: `$OMARCHY_PATH` when it is set and not empty,
/// otherwise the packaged location.
pub open spec fn install_dir_of(omarchy_path: Option<Seq<char>>) -> Seq<char> {
    match omarchy_path {
        Some(p) => if p.len() > 0 {
            p
        } else {
            PACKAGED_INSTALL@
        },
        None => PACKAGED_INSTALL@,
    }
}

/// The install directory, given the value of `$OMARCHY_PATH`.
pub fn install_dir(omarchy_path: Option<String>) -> (r: String)
    ensures
        r@ == install_dir_of(opt_view(omarchy_path)),
{
    match omarchy_path {
        Some(p) => if p.unicode_len() > 0 {
            p
        } else {
            String::from_str(PACKAGED_INSTALL)
        },
        None => String::from_str(PACKAGED_INSTALL),
    }
}

/// The theme state directory under `~/.local/state`.
pub open spec fn state_current_of(home: Seq<char>) -> Seq<char> {
    path_join_of(home, ".local/state/omarchy/current"@)
}

/// The theme state directory under `~/.config`.
pub open spec fn config_current_of(home: Seq<char>) -> Seq<char> {
    path_join_of(home, ".config/omarchy/current"@)
}

/// The theme state directory under `~/.local/state`.
pub fn state_current_dir(home: &str) -> (r: String)
    ensures
        r@ == state_current_of(home@),
{
    path_join(home, ".local/state/omarchy/current")
}

/// The theme state directory under `~/.config`.
pub fn config_current_dir(home: &str) -> (r: String)
    ensures
        r@ == config_current_of(home@),
{
    path_join(home, ".config/omarchy/current")
}

/// The current-theme directory: the one under `~/.local/state` when it holds
/// a `theme.name` file, else the one under `~/.config` when that does, else
/// the one under `~/.local/state`.
pub open spec fn current_dir_of(home: Seq<char>, state_has_theme: bool, config_has_theme: bool) -> Seq<
    char,
> {
    if state_has_theme {
        state_current_of(home)
    } else if config_has_theme {
        config_current_of(home)
    } else {
        state_current_of(home)
    }
}

/// The current-theme directory, given whether each candidate holds a
/// `theme.name` file.
pub fn current_dir(home: &str, state_has_theme: bool, config_has_theme: bool) -> (r: String)
    ensures
        r@ == current_dir_of(home@, state_has_theme, config_has_theme),
{
    if state_has_theme {
        state_current_dir(home)
    } else if config_has_theme {
        config_current_dir(home)
    } else {
        state_current_dir(home)
    }
}

/// The files and directories Omarchy keeps its version and theme in.
#[derive(Debug, Clone, PartialEq, Eq)]
pub struct OmarchyPaths {
    pub install_dir: String,
    pub version: String,
    pub current_theme_name: String,
    pub current_theme_dir: String,
    pub current_colors: String,
    pub current_background: String,
}

impl OmarchyPaths {
    /// The paths for a home directory, given `$OMARCHY_PATH` and whether the
    /// state and config theme directories hold a `theme.name` file.
    pub fn from_home(
        home: &str,
        omarchy_path: Option<String>,
        state_has_theme: bool,
        config_has_theme: bool,
    ) -> (r: Self)
        ensures
            r.install_dir@ == install_dir_of(opt_view(omarchy_path)),
            r.version@ == path_join_of(install_dir_of(opt_view(omarchy_path)), "version"@),
            r.current_theme_name@ == path_join_of(
                current_dir_of(home@, state_has_theme, config_has_theme),
                "theme.name"@,
            ),
            r.current_theme_dir@ == path_join_of(
                current_dir_of(home@, state_has_theme, config_has_theme),
                "theme"@,
            ),
            r.current_colors@ == path_join_of(
                current_dir_of(home@, state_has_theme, config_has_theme),
                "theme/colors.toml"@,
            ),
            r.current_background@ == path_join_of(
                current_dir_of(home@, state_has_theme, config_has_theme),
                "background"@,
            ),
    {
        let install = install_dir(omarchy_path);
        let current = current_dir(home, state_has_theme, config_has_theme);
        OmarchyPaths {
            version: path_join(install.as_str(), "version"),
            install_dir: install,
            current_theme_name: path_join(current.as_str(), "theme.name"),
            current_theme_dir: path_join(current.as_str(), "theme"),
            current_colors: path_join(current.as_str(), "theme/colors.toml"),
            current_background: path_join(current.as_str(), "background"),
        }
    }

    /// Whether the install directory is the packaged one.
    pub fn is_packaged_install(&self) -> (b: bool)
        ensures
            b == is_packaged_dir(self.install_dir@),
    {
        proof {
            reveal_strlit("/");
        }
        let p = chars_of(self.install_dir.as_str());
        if !starts_with_exec(&p, &chars_of("/")) {
            return false;
        }
        let parts = split_pat_exec(&p, &chars_of("/"));
        let dot = chars_of(".");
        let mut named: Vec<Vec<char>> = Vec::new();
        let mut i: usize = 0;
        while i < parts.len()
            invariant
                i <= parts.len(),
                dot@ == "."@,
                views(named@) == named_pieces(views(parts@).take(i as int)),
            decreases parts.len() - i,
        {
            assert(views(parts@).take(i + 1).drop_last() =~= views(parts@).take(i as int));
            assert(views(parts@).take(i + 1).last() == parts@[i as int]@);
            if !(parts[i].len() == 0 || eq_exec(&parts[i], &dot)) {
                let ghost before = views(named@);
                named.push(parts[i].clone());
                assert(views(named@) =~= before.push(parts@[i as int]@));
            }
            i += 1;
        }
        assert(views(parts@).take(parts.len() as int) =~= views(parts@));
        let ghost expected = seq!["usr"@, "share"@, "omarchy"@];
        if named.len() != 3 {
            assert(views(named@).len() != expected.len());
            return false;
        }
        assert(views(named@)[0] == named@[0]@ && views(named@)[1] == named@[1]@ && views(
            named@,
        )[2] == named@[2]@);
        let r = eq_exec(&named[0], &chars_of("usr")) && eq_exec(&named[1], &chars_of("share"))
            && eq_exec(&named[2], &chars_of("omarchy"));
        if r {
            assert(views(named@) =~= expected);
        } else {
            assert(views(named@) != expected) by {
                if views(named@) == expected {
                    assert(views(named@)[0] == expected[0]);
                    assert(views(named@)[1] == expected[1]);
                    assert(views(named@)[2] == expected[2]);
                }
            }
        }
        r
    }
}

} // verus!
