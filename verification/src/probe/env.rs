//! Shell, terminal and window manager: which one runs, which command reports
//! its version, and how its name and version are shown.
//!
//! The functions take the environment values and command outputs they
//! decide on; looking them up and running the commands is the caller's part.

use vstd::prelude::*;
use crate::text::{
    ascii_lower, ascii_lower_exec, chars_of, concat, eq_exec, lines, lines_exec, opt_string,
    opt_view, split_once, split_once_exec, split_pat, split_pat_exec, starts_with,
    starts_with_exec, string_of, views, words, words_exec,
};

verus! {

// ---------------------------------------------------------------------------
// Path names
// ---------------------------------------------------------------------------

/// The last path component among `parts` that is neither empty nor `.`.
pub open spec fn last_component(parts: Seq<Seq<char>>) -> Option<Seq<char>>
    decreases parts.len(),
{
    if parts.len() == 0 {
        None
    } else if parts.last().len() == 0 || parts.last() == "."@ {
        last_component(parts.drop_last())
    } else {
        Some(parts.last())
    }
}

/// `Path::file_name`: the final component of a path, unless the path ends in
/// `..` or has no normal component.
pub open spec fn basename_of(path: Seq<char>) -> Option<Seq<char>> {
    match last_component(split_pat(path, "/"@)) {
        Some(c) => if c == ".."@ {
            None
        } else {
            Some(c)
        },
        None => None,
    }
}

/// The final component of a path (`/usr/bin/zsh` gives `zsh`).
pub fn basename(path: &str) -> (r: Option<String>)
    ensures
        opt_view(r) == basename_of(path@),
{
    proof {
        reveal_strlit("/");
    }
    let parts = split_pat_exec(&chars_of(path), &chars_of("/"));
    let dot = chars_of(".");
    let ghost ps = views(parts@);
    let mut n: usize = parts.len();
    assert(ps.take(n as int) =~= ps);
    while n > 0 && (parts[n - 1].len() == 0 || eq_exec(&parts[n - 1], &dot))
        invariant
            n <= parts.len(),
            ps == views(parts@),
            dot@ == "."@,
            last_component(ps) == last_component(ps.take(n as int)),
        decreases n,
    {
        assert(ps.take(n as int).last() == parts@[n - 1]@);
        assert(ps.take(n as int).drop_last() =~= ps.take(n - 1));
        n -= 1;
    }
    if n == 0 {
        return None;
    }
    assert(ps.take(n as int).last() == parts@[n - 1]@);
    let last = &parts[n - 1];
    if eq_exec(last, &chars_of("..")) {
        None
    } else {
        Some(string_of(last))
    }
}

// ---------------------------------------------------------------------------
// Shell
// ---------------------------------------------------------------------------

/// The version in the first line of `bash --version`: the text between
/// `version ` and the next `(`, or the whole line when it has no such part.
pub open spec fn bash_version_of(line: Seq<char>) -> Seq<char> {
    match split_once(line, "version "@) {
        Some(a) => match split_once(a.1, "("@) {
            Some(b) => b.0,
            None => line,
        },
        None => line,
    }
}

fn parse_bash_version(line: &Vec<char>) -> (r: Vec<char>)
    ensures
        r@ == bash_version_of(line@),
{
    match split_once_exec(line, &chars_of("version ")) {
        Some((_, rest)) => match split_once_exec(&rest, &chars_of("(")) {
            Some((version, _)) => version,
            None => line.clone(),
        },
        None => line.clone(),
    }
}

/// The program that reports a shell's version, for the shells whose version
/// is shown.
pub open spec fn shell_program_of(shell: Seq<char>) -> Option<Seq<char>> {
    if shell == "bash"@ || shell == "zsh"@ || shell == "fish"@ {
        Some(shell)
    } else {
        None
    }
}

/// The program to run with `--version` for a shell's version, if its version
/// is shown.
pub fn shell_version_program(shell: &str) -> (r: Option<String>)
    ensures
        opt_view(r) == shell_program_of(shell@),
{
    let s = chars_of(shell);
    if eq_exec(&s, &chars_of("bash")) || eq_exec(&s, &chars_of("zsh")) || eq_exec(
        &s,
        &chars_of("fish"),
    ) {
        Some(string_of(&s))
    } else {
        None
    }
}

/// The version a shell's `--version` output states.
pub open spec fn shell_version_of(shell: Seq<char>, output: Seq<char>) -> Option<Seq<char>> {
    if shell == "bash"@ {
        if lines(output).len() > 0 {
            Some(bash_version_of(lines(output)[0]))
        } else {
            None
        }
    } else if shell == "zsh"@ {
        if words(output).len() > 1 {
            Some(words(output)[1])
        } else {
            None
        }
    } else if shell == "fish"@ {
        if words(output).len() > 0 {
            Some(words(output).last())
        } else {
            None
        }
    } else {
        None
    }
}

/// `name vVERSION`, or the name alone without a version.
pub open spec fn with_version(name: Seq<char>, version: Option<Seq<char>>) -> Seq<char> {
    match version {
        Some(v) => name + " v"@ + v,
        None => name,
    }
}

fn append_version(name: &Vec<char>, version: Option<Vec<char>>) -> (r: String)
    ensures
        r@ == with_version(
            name@,
            match version {
                Some(v) => Some(v@),
                None => None,
            },
        ),
{
    match version {
        Some(v) => string_of(&concat(&concat(name, &chars_of(" v")), &v)),
        None => string_of(name),
    }
}

fn shell_version(shell: &Vec<char>, output: &Vec<char>) -> (r: Option<Vec<char>>)
    ensures
        match r {
            Some(v) => shell_version_of(shell@, output@) == Some(v@),
            None => shell_version_of(shell@, output@) is None,
        },
{
    if eq_exec(shell, &chars_of("bash")) {
        let ls = lines_exec(output);
        if ls.len() > 0 {
            assert(views(ls@)[0] == ls@[0]@);
            Some(parse_bash_version(&ls[0]))
        } else {
            None
        }
    } else if eq_exec(shell, &chars_of("zsh")) {
        let ws = words_exec(output);
        if ws.len() > 1 {
            assert(views(ws@)[1] == ws@[1]@);
            Some(ws[1].clone())
        } else {
            None
        }
    } else if eq_exec(shell, &chars_of("fish")) {
        let ws = words_exec(output);
        if ws.len() > 0 {
            assert(views(ws@).last() == ws@[ws.len() - 1]@);
            Some(ws[ws.len() - 1].clone())
        } else {
            None
        }
    } else {
        None
    }
}

/// The shell with its version, given the shell's name (the base name of
/// `$SHELL`) and the output of its `--version` when that was run.
pub fn shell_with_version(shell: Option<String>, version_output: Option<String>) -> (r: Option<
    String,
>)
    ensures
        opt_view(r) == match shell {
            Some(s) => Some(
                with_version(
                    s@,
                    match version_output {
                        Some(o) => shell_version_of(s@, o@),
                        None => None,
                    },
                ),
            ),
            None => None,
        },
{
    let s = match shell {
        Some(s) => chars_of(s.as_str()),
        None => return None,
    };
    let version = match version_output {
        Some(o) => shell_version(&s, &chars_of(o.as_str())),
        None => None,
    };
    Some(append_version(&s, version))
}

// ---------------------------------------------------------------------------
// Terminal
// ---------------------------------------------------------------------------

/// The terminal: named after the first of Ghostty, Kitty, Alacritty and
/// WezTerm whose environment marker is set, otherwise `$TERM_PROGRAM`,
/// `$TERMINAL` or `$TERM`, the first that is set.
pub open spec fn terminal_of(
    ghostty: bool,
    kitty: bool,
    alacritty: bool,
    wezterm: bool,
    term_program: Option<Seq<char>>,
    terminal: Option<Seq<char>>,
    term: Option<Seq<char>>,
) -> Option<Seq<char>> {
    if ghostty {
        Some("Ghostty"@)
    } else if kitty {
        Some("Kitty"@)
    } else if alacritty {
        Some("Alacritty"@)
    } else if wezterm {
        Some("WezTerm"@)
    } else if term_program is Some {
        term_program
    } else if terminal is Some {
        terminal
    } else {
        term
    }
}

/// The terminal, given whether `GHOSTTY_RESOURCES_DIR`, `KITTY_WINDOW_ID`,
/// `ALACRITTY_SOCKET` and `WEZTERM_EXECUTABLE` are set and the values of
/// `TERM_PROGRAM`, `TERMINAL` and `TERM`.
pub fn terminal(
    ghostty: bool,
    kitty: bool,
    alacritty: bool,
    wezterm: bool,
    term_program: Option<String>,
    terminal_var: Option<String>,
    term: Option<String>,
) -> (r: Option<String>)
    ensures
        opt_view(r) == terminal_of(
            ghostty,
            kitty,
            alacritty,
            wezterm,
            opt_view(term_program),
            opt_view(terminal_var),
            opt_view(term),
        ),
{
    if ghostty {
        Some(String::from_str("Ghostty"))
    } else if kitty {
        Some(String::from_str("Kitty"))
    } else if alacritty {
        Some(String::from_str("Alacritty"))
    } else if wezterm {
        Some(String::from_str("WezTerm"))
    } else if term_program.is_some() {
        term_program
    } else if terminal_var.is_some() {
        terminal_var
    } else {
        term
    }
}

/// The program that reports a terminal's version, for the terminals whose
/// version is shown.
pub open spec fn terminal_program_of(name: Seq<char>) -> Option<Seq<char>> {
    if name == "Ghostty"@ {
        Some("ghostty"@)
    } else if name == "Kitty"@ {
        Some("kitty"@)
    } else if name == "WezTerm"@ {
        Some("wezterm"@)
    } else {
        None
    }
}

/// The program to run with `--version` for a terminal's version, if its
/// version is shown.
pub fn terminal_version_program(name: &str) -> (r: Option<String>)
    ensures
        opt_view(r) == terminal_program_of(name@),
{
    let n = chars_of(name);
    if eq_exec(&n, &chars_of("Ghostty")) {
        Some(String::from_str("ghostty"))
    } else if eq_exec(&n, &chars_of("Kitty")) {
        Some(String::from_str("kitty"))
    } else if eq_exec(&n, &chars_of("WezTerm")) {
        Some(String::from_str("wezterm"))
    } else {
        None
    }
}

/// The second word of a version report (`ghostty 1.2.0` gives `1.2.0`).
pub open spec fn second_word(output: Seq<char>) -> Option<Seq<char>> {
    if words(output).len() > 1 {
        Some(words(output)[1])
    } else {
        None
    }
}

fn second_word_exec(output: &Vec<char>) -> (r: Option<Vec<char>>)
    ensures
        match r {
            Some(v) => second_word(output@) == Some(v@),
            None => second_word(output@) is None,
        },
{
    let ws = words_exec(output);
    if ws.len() > 1 {
        assert(views(ws@)[1] == ws@[1]@);
        Some(ws[1].clone())
    } else {
        None
    }
}

/// The terminal with its version, given the terminal's name and the output
/// of its `--version` when that was run.
pub fn terminal_with_version(terminal: Option<String>, version_output: Option<String>) -> (r:
    Option<String>)
    ensures
        opt_view(r) == match terminal {
            Some(t) => Some(
                with_version(
                    t@,
                    match version_output {
                        Some(o) => if terminal_program_of(t@) is Some {
                            second_word(o@)
                        } else {
                            None
                        },
                        None => None,
                    },
                ),
            ),
            None => None,
        },
{
    let t = match terminal {
        Some(t) => t,
        None => return None,
    };
    let version = match version_output {
        Some(o) => if terminal_version_program(t.as_str()).is_some() {
            second_word_exec(&chars_of(o.as_str()))
        } else {
            None
        },
        None => None,
    };
    Some(append_version(&chars_of(t.as_str()), version))
}

// ---------------------------------------------------------------------------
// Window manager
// ---------------------------------------------------------------------------

/// The window manager: Hyprland when its instance signature is set,
/// otherwise `$XDG_CURRENT_DESKTOP` or `$DESKTOP_SESSION`.
pub open spec fn wm_of(hyprland: bool, desktop: Option<Seq<char>>, session: Option<Seq<char>>) -> Option<
    Seq<char>,
> {
    if hyprland {
        Some("Hyprland"@)
    } else if desktop is Some {
        desktop
    } else {
        session
    }
}

/// The window manager, given whether `HYPRLAND_INSTANCE_SIGNATURE` is set
/// and the values of `XDG_CURRENT_DESKTOP` and `DESKTOP_SESSION`.
pub fn wm(hyprland: bool, desktop: Option<String>, session: Option<String>) -> (r: Option<String>)
    ensures
        opt_view(r) == wm_of(hyprland, opt_view(desktop), opt_view(session)),
{
    if hyprland {
        Some(String::from_str("Hyprland"))
    } else if desktop.is_some() {
        desktop
    } else {
        session
    }
}

/// Whether a window manager name is Hyprland, ignoring ASCII case.
pub open spec fn is_hyprland(name: Seq<char>) -> bool {
    name.map_values(|c: char| ascii_lower(c)) == "hyprland"@
}

/// Whether a window manager name is Hyprland, ignoring ASCII case.
pub fn is_hyprland_name(name: &str) -> (b: bool)
    ensures
        b == is_hyprland(name@),
{
    let lower = ascii_lower_exec(&chars_of(name));
    eq_exec(&lower, &chars_of("hyprland"))
}

/// The window manager with its version: `NAME VERSION` when the reported
/// version already starts with `v`, `NAME vVERSION` otherwise.
pub open spec fn wm_version_text(wm: Seq<char>, version: Option<Seq<char>>) -> Seq<char> {
    match version {
        Some(v) => if starts_with(v, "v"@) {
            wm + " "@ + v
        } else {
            wm + " v"@ + v
        },
        None => wm,
    }
}

/// The window manager with its version, given its name and the output of
/// `hyprctl version` when that was run; only Hyprland's version is shown.
pub fn wm_with_version(wm: Option<String>, hyprctl_version: Option<String>) -> (r: Option<String>)
    ensures
        opt_view(r) == match wm {
            Some(w) => Some(
                wm_version_text(
                    w@,
                    match hyprctl_version {
                        Some(o) => if is_hyprland(w@) {
                            second_word(o@)
                        } else {
                            None
                        },
                        None => None,
                    },
                ),
            ),
            None => None,
        },
{
    let w = match wm {
        Some(w) => w,
        None => return None,
    };
    let version = match hyprctl_version {
        Some(o) => if is_hyprland_name(w.as_str()) {
            second_word_exec(&chars_of(o.as_str()))
        } else {
            None
        },
        None => None,
    };
    let name = chars_of(w.as_str());
    match version {
        Some(v) => if starts_with_exec(&v, &chars_of("v")) {
            Some(string_of(&concat(&concat(&name, &chars_of(" ")), &v)))
        } else {
            Some(string_of(&concat(&concat(&name, &chars_of(" v")), &v)))
        },
        None => Some(string_of(&name)),
    }
}

} // verus!
