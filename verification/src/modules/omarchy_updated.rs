//! When packages were last upgraded.

use vstd::prelude::*;
use crate::text::{chars_of, contains, contains_exec, lines, lines_exec, opt_view, replace, replace_exec, rsplit_once, rsplit_once_exec, split_once, split_once_exec, string_of, strip_prefix, strip_prefix_exec, views};
use crate::modules::types::Module;
use crate::modules::registry::{key_name, ModuleKey};

verus! {

/// When packages were last upgraded.
pub struct OmarchyUpdated;

impl Module for OmarchyUpdated {
    fn name(&self) -> (r: &'static str)
        ensures
            r@ == key_name(ModuleKey::OmarchyUpdated),
    {
        "omarchy-updated"
    }

    fn label(&self) -> (r: &'static str)
        ensures
            r@ == "Updated"@,
    {
        "Updated"
    }
}

/// The last line that records an upgrade.
pub open spec fn last_upgraded(ls: Seq<Seq<char>>) -> Option<Seq<char>>
    decreases ls.len(),
{
    if ls.len() == 0 {
        None
    } else if contains(ls.last(), " upgraded "@) {
        Some(ls.last())
    } else {
        last_upgraded(ls.drop_last())
    }
}

/// A pacman log time without its UTC offset, with a space for the `T`.
pub open spec fn pacman_time_text(v: Seq<char>) -> Seq<char> {
    let without_offset = match rsplit_once(v, "-"@) {
        Some(p) => p.0,
        None => v,
    };
    replace(without_offset, "T"@, " "@)
}

/// The time of the last upgrade in a pacman log: the bracketed time at the
/// start of the last line that records an upgrade.
pub open spec fn last_upgrade_of(input: Seq<char>) -> Option<Seq<char>> {
    match last_upgraded(lines(input)) {
        Some(l) => match strip_prefix(l, "["@) {
            Some(rest) => match split_once(rest, "]"@) {
                Some(p) => Some(pacman_time_text(p.0)),
                None => None,
            },
            None => None,
        },
        None => None,
    }
}

/// A pacman log time (`2026-08-01T12:34:56-0400`) as shown
/// (`2026-08-01 12:34:56`).
pub fn format_pacman_timestamp(value: &str) -> (r: String)
    ensures
        r@ == pacman_time_text(value@),
{
    proof {
        reveal_strlit("T");
    }
    let v = chars_of(value);
    let without_offset = match rsplit_once_exec(&v, &chars_of("-")) {
        Some((date, _)) => date,
        None => v,
    };
    string_of(&replace_exec(&without_offset, &chars_of("T"), &chars_of(" ")))
}

/// The time of the last upgrade in the contents of `/var/log/pacman.log`.
pub fn last_upgrade_from(input: &str) -> (r: Option<String>)
    ensures
        opt_view(r) == last_upgrade_of(input@),
{
    let ls = lines_exec(&chars_of(input));
    let ghost vl = views(ls@);
    let marker = chars_of(" upgraded ");
    let mut n: usize = ls.len();
    assert(vl.take(n as int) =~= vl);
    let mut found: Option<usize> = None;
    while n > 0 && found.is_none()
        invariant
            n <= ls.len(),
            vl == views(ls@),
            marker@ == " upgraded "@,
            match found {
                Some(k) => k < ls.len() && last_upgraded(vl) == Some(vl[k as int]),
                None => last_upgraded(vl) == last_upgraded(vl.take(n as int)),
            },
        decreases n + (if found is None { 1int } else { 0int }),
    {
        assert(vl.take(n as int).last() == ls@[n - 1]@);
        assert(vl.take(n as int).drop_last() =~= vl.take(n - 1));
        if contains_exec(&ls[n - 1], &marker) {
            found = Some(n - 1);
        } else {
            n -= 1;
        }
    }
    let k = match found {
        Some(k) => k,
        None => {
            assert(vl.take(n as int).len() == 0);
            return None;
        },
    };
    let line = &ls[k];
    match strip_prefix_exec(line, &chars_of("[")) {
        Some(rest) => match split_once_exec(&rest, &chars_of("]")) {
            Some((date, _)) => Some(format_pacman_timestamp(string_of(&date).as_str())),
            None => None,
        },
        None => None,
    }
}

impl OmarchyUpdated {
    /// The updated value, given the contents of the pacman log.
    pub fn value(log: Option<String>) -> (r: String)
        ensures
            r@ == match match opt_view(log) {
                Some(s) => last_upgrade_of(s),
                None => None,
            } {
                Some(t) => t,
                None => "unknown"@,
            },
    {
        let found = match log {
            Some(s) => last_upgrade_from(s.as_str()),
            None => None,
        };
        match found {
            Some(t) => t,
            None => String::from_str("unknown"),
        }
    }
}

/// A later upgrade line wins over every earlier one.
pub proof fn lemma_last_upgrade_wins(ls: Seq<Seq<char>>, later: Seq<Seq<char>>, l: Seq<char>)
    requires
        contains(l, " upgraded "@),
        forall|i: int| 0 <= i < later.len() ==> !contains(#[trigger] later[i], " upgraded "@),
    ensures
        last_upgraded(ls.push(l) + later) == Some(l),
    decreases later.len(),
{
    if later.len() == 0 {
        assert(ls.push(l) + later =~= ls.push(l));
    } else {
        lemma_last_upgrade_wins(ls, later.drop_last(), l);
        assert((ls.push(l) + later).drop_last() =~= ls.push(l) + later.drop_last());
        assert((ls.push(l) + later).last() == later.last());
        assert(!contains(later[later.len() - 1], " upgraded "@));
    }
}

} // verus!
