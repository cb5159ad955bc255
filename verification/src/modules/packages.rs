//! Installed package counts.

use vstd::prelude::*;
use crate::text::{chars_of, concat, dec, dec_exec, lines, lines_exec, opt_view, string_of, trim, trim_exec, views};
use crate::modules::types::Module;
use crate::modules::registry::{key_name, ModuleKey};

verus! {

/// Installed package counts.
pub struct Packages;

impl Module for Packages {
    fn name(&self) -> (r: &'static str)
        ensures
            r@ == key_name(ModuleKey::Packages),
    {
        "packages"
    }

    fn label(&self) -> (r: &'static str)
        ensures
            r@ == "Packages"@,
    {
        "Packages"
    }
}

/// The number of lines that are not blank.
pub open spec fn nonblank_count(ls: Seq<Seq<char>>) -> nat
    decreases ls.len(),
{
    if ls.len() == 0 {
        0
    } else {
        nonblank_count(ls.drop_last()) + if trim(ls.last()).len() > 0 {
            1nat
        } else {
            0nat
        }
    }
}

proof fn lemma_nonblank_count_le(ls: Seq<Seq<char>>)
    ensures
        nonblank_count(ls) <= ls.len(),
    decreases ls.len(),
{
    if ls.len() > 0 {
        lemma_nonblank_count_le(ls.drop_last());
    }
}

/// The number of foreign (AUR) packages in the output of `pacman -Qqm`: one
/// per non-blank line.
pub fn aur_package_count(output: Option<String>) -> (r: Option<usize>)
    ensures
        r == match opt_view(output) {
            Some(o) => Some(nonblank_count(lines(o)) as usize),
            None => None,
        },
{
    let o = match output {
        Some(o) => o,
        None => return None,
    };
    let ls = lines_exec(&chars_of(o.as_str()));
    let ghost vl = views(ls@);
    let mut count: usize = 0;
    let mut i: usize = 0;
    while i < ls.len()
        invariant
            i <= ls.len(),
            vl == views(ls@),
            count == nonblank_count(vl.take(i as int)),
        decreases ls.len() - i,
    {
        assert(vl.take(i + 1).drop_last() =~= vl.take(i as int));
        assert(vl.take(i + 1).last() == ls@[i as int]@);
        proof {
            lemma_nonblank_count_le(vl.take(i as int));
        }
        if trim_exec(&ls[i]).len() > 0 {
            count += 1;
        }
        i += 1;
    }
    assert(vl.take(ls.len() as int) =~= vl);
    Some(count)
}

/// The packages value: `Pacman (N)`, with ` AUR (M)` when the foreign count
/// is known; `unknown` without the pacman count.
pub open spec fn packages_text(pacman: Option<usize>, aur: Option<usize>) -> Seq<char> {
    match pacman {
        Some(p) => match aur {
            Some(a) => "Pacman ("@ + dec(p as nat) + ") AUR ("@ + dec(a as nat) + ")"@,
            None => "Pacman ("@ + dec(p as nat) + ")"@,
        },
        None => "unknown"@,
    }
}

impl Packages {
    /// The packages value, given the number of entries in the pacman
    /// database and the number of foreign packages.
    pub fn value(pacman: Option<usize>, aur: Option<usize>) -> (r: String)
        ensures
            r@ == packages_text(pacman, aur),
    {
        match pacman {
            Some(p) => {
                let mut out = concat(&chars_of("Pacman ("), &dec_exec(p as u128));
                match aur {
                    Some(a) => {
                        out = concat(&out, &chars_of(") AUR ("));
                        out = concat(&out, &dec_exec(a as u128));
                        out = concat(&out, &chars_of(")"));
                    },
                    None => {
                        out = concat(&out, &chars_of(")"));
                    },
                }
                string_of(&out)
            },
            None => String::from_str("unknown"),
        }
    }
}

} // verus!
