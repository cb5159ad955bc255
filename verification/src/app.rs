//! What a fetch shows: which collected lines are kept, and the public
//! variant that leaves out identifying details for sharing.

use vstd::prelude::*;
use crate::cli::{Cli, Command};
use crate::modules::types::ModuleOutput;
use crate::text::{
    chars_of, concat, eq_exec, join, join_exec, lines, lines_exec, split_once, split_once_exec,
    starts_with, starts_with_exec, string_of, views, words, words_exec,
};

verus! {

/// A collected line as plain values: name, label and value.
pub open spec fn output_view(o: ModuleOutput) -> (Seq<char>, Seq<char>, Seq<char>) {
    (o.name@, o.label@, o.value@)
}

/// Collected lines as plain values.
pub open spec fn output_views(v: Seq<ModuleOutput>) -> Seq<(Seq<char>, Seq<char>, Seq<char>)> {
    v.map_values(|o: ModuleOutput| output_view(o))
}

/// Whether a line is left out of the default fetch: a battery or GTT line
/// whose value is unknown (machines without one).
pub open spec fn hidden_by_default(o: (Seq<char>, Seq<char>, Seq<char>)) -> bool {
    (o.0 == "battery"@ || o.0 == "gtt-memory"@) && o.2 == "unknown"@
}

/// The lines kept, in order.
pub open spec fn kept_outputs(v: Seq<(Seq<char>, Seq<char>, Seq<char>)>, is_default_output: bool) -> Seq<
    (Seq<char>, Seq<char>, Seq<char>),
>
    decreases v.len(),
{
    if v.len() == 0 {
        seq![]
    } else {
        let prev = kept_outputs(v.drop_last(), is_default_output);
        if is_default_output && hidden_by_default(v.last()) {
            prev
        } else {
            prev.push(v.last())
        }
    }
}

fn is_hidden(o: &ModuleOutput) -> (b: bool)
    ensures
        b == hidden_by_default(output_view(*o)),
{
    let n = chars_of(o.name);
    (eq_exec(&n, &chars_of("battery")) || eq_exec(&n, &chars_of("gtt-memory"))) && eq_exec(
        &chars_of(o.value.as_str()),
        &chars_of("unknown"),
    )
}

/// The collected lines to show: all of them for an explicit module list; in
/// the default fetch, without battery and GTT lines that found nothing.
pub fn visible_outputs(outputs: Vec<ModuleOutput>, is_default_output: bool) -> (r: Vec<
    ModuleOutput,
>)
    ensures
        output_views(r@) == kept_outputs(output_views(outputs@), is_default_output),
{
    let ghost ov = output_views(outputs@);
    let mut r: Vec<ModuleOutput> = Vec::new();
    let mut i: usize = 0;
    while i < outputs.len()
        invariant
            i <= outputs.len(),
            ov == output_views(outputs@),
            output_views(r@) == kept_outputs(ov.take(i as int), is_default_output),
        decreases outputs.len() - i,
    {
        assert(ov.take(i + 1).drop_last() =~= ov.take(i as int));
        assert(ov.take(i + 1).last() == output_view(outputs@[i as int]));
        if !(is_default_output && is_hidden(&outputs[i])) {
            let o = ModuleOutput {
                name: outputs[i].name,
                label: outputs[i].label.clone(),
                value: outputs[i].value.clone(),
            };
            let ghost before = output_views(r@);
            r.push(o);
            assert(output_views(r@) =~= before.push(output_view(outputs@[i as int])));
        }
        i += 1;
    }
    assert(ov.take(outputs.len() as int) =~= ov);
    r
}

// ---------------------------------------------------------------------------
// Public output
// ---------------------------------------------------------------------------

/// A source line without its commit: the text before `" ("`.
pub open spec fn public_source_of(value: Seq<char>) -> Seq<char> {
    match split_once(value, " ("@) {
        Some(p) => p.0,
        None => value,
    }
}

/// The source line without the commit hash.
pub fn public_source(value: &str) -> (r: String)
    ensures
        r@ == public_source_of(value@),
{
    let v = chars_of(value);
    match split_once_exec(&v, &chars_of(" (")) {
        Some((branch, _)) => string_of(&branch),
        None => string_of(&v),
    }
}

/// Whether a root-line word is kept in public output: the subvolume `@` and
/// compression settings are dropped.
pub open spec fn public_root_word(w: Seq<char>) -> bool {
    w != "@"@ && !starts_with(w, "zstd"@) && !starts_with(w, "compress="@)
}

/// The kept words, in order.
pub open spec fn public_root_words(ws: Seq<Seq<char>>) -> Seq<Seq<char>>
    decreases ws.len(),
{
    if ws.len() == 0 {
        seq![]
    } else {
        let prev = public_root_words(ws.drop_last());
        if public_root_word(ws.last()) {
            prev.push(ws.last())
        } else {
            prev
        }
    }
}

/// The root line without subvolume and compression details.
pub open spec fn public_rootfs_of(value: Seq<char>) -> Seq<char> {
    join(public_root_words(words(value)), " "@)
}

/// The root line without subvolume and compression details.
pub fn public_rootfs(value: &str) -> (r: String)
    ensures
        r@ == public_rootfs_of(value@),
{
    let ws = words_exec(&chars_of(value));
    let ghost wv = views(ws@);
    let at = chars_of("@");
    let zstd = chars_of("zstd");
    let compress = chars_of("compress=");
    let mut kept: Vec<Vec<char>> = Vec::new();
    let mut i: usize = 0;
    while i < ws.len()
        invariant
            i <= ws.len(),
            wv == views(ws@),
            at@ == "@"@,
            zstd@ == "zstd"@,
            compress@ == "compress="@,
            views(kept@) == public_root_words(wv.take(i as int)),
        decreases ws.len() - i,
    {
        assert(wv.take(i + 1).drop_last() =~= wv.take(i as int));
        assert(wv.take(i + 1).last() == ws@[i as int]@);
        let w = &ws[i];
        if !eq_exec(w, &at) && !starts_with_exec(w, &zstd) && !starts_with_exec(w, &compress) {
            let ghost before = views(kept@);
            kept.push(w.clone());
            assert(views(kept@) =~= before.push(w@));
        }
        i += 1;
    }
    assert(wv.take(ws.len() as int) =~= wv);
    string_of(&join_exec(&kept, &chars_of(" ")))
}

/// A disk line after the first, with its mount name replaced by `disk`.
pub open spec fn public_disk_line(line: Seq<char>) -> Seq<char> {
    match split_once(line, "  "@) {
        Some(p) => "disk  "@ + p.1,
        None => line,
    }
}

/// The disk lines: the first as it is, the others under the name `disk`.
pub open spec fn public_disk_lines(ls: Seq<Seq<char>>) -> Seq<Seq<char>> {
    Seq::new(
        ls.len(),
        |i: int|
            if i == 0 {
                ls[i]
            } else {
                public_disk_line(ls[i])
            },
    )
}

/// The disk value with every mount but the first named `disk`.
pub open spec fn public_disk_of(value: Seq<char>) -> Seq<char> {
    join(public_disk_lines(lines(value)), "\n"@)
}

/// The disk value with the names of all mounts but the first hidden.
pub fn public_disk(value: &str) -> (r: String)
    ensures
        r@ == public_disk_of(value@),
{
    let ls = lines_exec(&chars_of(value));
    let ghost lv = views(ls@);
    let sep = chars_of("  ");
    let mut out: Vec<Vec<char>> = Vec::new();
    let mut i: usize = 0;
    while i < ls.len()
        invariant
            i <= ls.len(),
            lv == views(ls@),
            sep@ == "  "@,
            views(out@) == public_disk_lines(lv).take(i as int),
        decreases ls.len() - i,
    {
        let line = &ls[i];
        let piece = if i == 0 {
            line.clone()
        } else {
            match split_once_exec(line, &sep) {
                Some((_, usage)) => concat(&chars_of("disk  "), &usage),
                None => line.clone(),
            }
        };
        let ghost before = views(out@);
        out.push(piece);
        assert(views(out@) =~= before.push(public_disk_lines(lv)[i as int]));
        i += 1;
        assert(public_disk_lines(lv).take(i as int) =~= public_disk_lines(lv).take(i - 1).push(
            public_disk_lines(lv)[i - 1],
        ));
    }
    assert(public_disk_lines(lv).take(ls.len() as int) =~= public_disk_lines(lv));
    string_of(&join_exec(&out, &chars_of("\n")))
}

/// A line as the public fetch shows it; `None` for the local IP, which it
/// leaves out.
pub open spec fn public_line(o: (Seq<char>, Seq<char>, Seq<char>)) -> Option<
    (Seq<char>, Seq<char>, Seq<char>),
> {
    if o.0 == "localip"@ {
        None
    } else if o.0 == "omarchy-source"@ {
        Some((o.0, o.1, public_source_of(o.2)))
    } else if o.0 == "rootfs"@ {
        Some((o.0, o.1, public_rootfs_of(o.2)))
    } else if o.0 == "disk"@ {
        Some((o.0, o.1, public_disk_of(o.2)))
    } else {
        Some(o)
    }
}

/// The public lines, in order.
pub open spec fn public_lines(v: Seq<(Seq<char>, Seq<char>, Seq<char>)>) -> Seq<
    (Seq<char>, Seq<char>, Seq<char>),
>
    decreases v.len(),
{
    if v.len() == 0 {
        seq![]
    } else {
        let prev = public_lines(v.drop_last());
        match public_line(v.last()) {
            Some(o) => prev.push(o),
            None => prev,
        }
    }
}

/// The lines of a fetch meant for sharing: without the local IP, the source
/// commit, root subvolume and compression details, or the names of mounts
/// beyond the first.
pub fn public_outputs(outputs: Vec<ModuleOutput>) -> (r: Vec<ModuleOutput>)
    ensures
        output_views(r@) == public_lines(output_views(outputs@)),
{
    let ghost ov = output_views(outputs@);
    let mut r: Vec<ModuleOutput> = Vec::new();
    let mut i: usize = 0;
    while i < outputs.len()
        invariant
            i <= outputs.len(),
            ov == output_views(outputs@),
            output_views(r@) == public_lines(ov.take(i as int)),
        decreases outputs.len() - i,
    {
        assert(ov.take(i + 1).drop_last() =~= ov.take(i as int));
        assert(ov.take(i + 1).last() == output_view(outputs@[i as int]));
        let o = &outputs[i];
        let n = chars_of(o.name);
        if !eq_exec(&n, &chars_of("localip")) {
            let value = if eq_exec(&n, &chars_of("omarchy-source")) {
                public_source(o.value.as_str())
            } else if eq_exec(&n, &chars_of("rootfs")) {
                public_rootfs(o.value.as_str())
            } else if eq_exec(&n, &chars_of("disk")) {
                public_disk(o.value.as_str())
            } else {
                o.value.clone()
            };
            let kept = ModuleOutput { name: o.name, label: o.label.clone(), value };
            let ghost before = output_views(r@);
            r.push(kept);
            assert(output_views(r@) =~= before.push(output_view(kept)));
        }
        i += 1;
    }
    assert(ov.take(outputs.len() as int) =~= ov);
    r
}

/// The public fetch never shows the local IP address.
pub proof fn lemma_public_hides_local_ip(v: Seq<(Seq<char>, Seq<char>, Seq<char>)>)
    ensures
        forall|i: int| 0 <= i < public_lines(v).len() ==> (#[trigger] public_lines(v)[i]).0 != "localip"@,
    decreases v.len(),
{
    if v.len() > 0 {
        lemma_public_hides_local_ip(v.drop_last());
        let prev = public_lines(v.drop_last());
        match public_line(v.last()) {
            Some(o) => {
                assert forall|i: int| 0 <= i < prev.push(o).len() implies (#[trigger] prev.push(o)[i]).0
                    != "localip"@ by {
                    if i < prev.len() {
                        assert(prev.push(o)[i] == prev[i]);
                    }
                }
            },
            None => {},
        }
    }
}

/// The lines that are not the local IP's, in order.
pub open spec fn non_localip(v: Seq<(Seq<char>, Seq<char>, Seq<char>)>) -> Seq<
    (Seq<char>, Seq<char>, Seq<char>),
>
    decreases v.len(),
{
    if v.len() == 0 {
        seq![]
    } else if v.last().0 == "localip"@ {
        non_localip(v.drop_last())
    } else {
        non_localip(v.drop_last()).push(v.last())
    }
}

/// The public fetch keeps every other line, in order, under its name and
/// label.
pub proof fn lemma_public_keeps_other_lines(v: Seq<(Seq<char>, Seq<char>, Seq<char>)>)
    ensures
        public_lines(v).len() == non_localip(v).len(),
        forall|i: int|
            0 <= i < public_lines(v).len() ==> (#[trigger] public_lines(v)[i]).0 == non_localip(
                v,
            )[i].0 && public_lines(v)[i].1 == non_localip(v)[i].1,
    decreases v.len(),
{
    if v.len() > 0 {
        lemma_public_keeps_other_lines(v.drop_last());
        let prev = public_lines(v.drop_last());
        let other = non_localip(v.drop_last());
        match public_line(v.last()) {
            Some(o) => {
                assert(o.0 == v.last().0 && o.1 == v.last().1);
                assert forall|i: int| 0 <= i < prev.push(o).len() implies (#[trigger] prev.push(
                    o,
                )[i]).0 == other.push(v.last())[i].0 && prev.push(o)[i].1 == other.push(
                    v.last(),
                )[i].1 by {
                    if i < prev.len() {
                        assert(prev.push(o)[i] == prev[i]);
                        assert(other.push(v.last())[i] == other[i]);
                    }
                }
            },
            None => {},
        }
    }
}

/// The default fetch shows no battery or GTT line that found nothing, and
/// an explicit module list shows every line.
pub proof fn lemma_default_hides_absent_lines(v: Seq<(Seq<char>, Seq<char>, Seq<char>)>)
    ensures
        forall|i: int|
            0 <= i < kept_outputs(v, true).len() ==> !hidden_by_default(
                #[trigger] kept_outputs(v, true)[i],
            ),
        kept_outputs(v, false) == v,
    decreases v.len(),
{
    if v.len() > 0 {
        lemma_default_hides_absent_lines(v.drop_last());
        let prev = kept_outputs(v.drop_last(), true);
        if !hidden_by_default(v.last()) {
            assert forall|i: int| 0 <= i < prev.push(v.last()).len() implies !hidden_by_default(
                #[trigger] prev.push(v.last())[i],
            ) by {
                if i < prev.len() {
                    assert(prev.push(v.last())[i] == prev[i]);
                }
            }
        }
        assert(v.drop_last().push(v.last()) =~= v);
    } else {
        assert(kept_outputs(v, false) =~= v);
    }
}

// ---------------------------------------------------------------------------
// What a fetch asks for
// ---------------------------------------------------------------------------

/// The modules a fetch resolves and how it lays them out.
#[derive(Debug, Clone, PartialEq, Eq)]
pub struct FetchPlan {
    /// The module names to resolve; empty for the default set.
    pub names: Vec<String>,
    /// Whether the default layout (with group gaps) is used.
    pub is_default_output: bool,
    /// Whether identifying details are left out.
    pub is_public: bool,
}

/// What a fetch command line asks for: `None` for `list`; the public fetch
/// uses the default modules and layout; otherwise the named modules, with
/// the default layout when none are named.
pub fn fetch_plan(cli: &Cli) -> (r: Option<FetchPlan>)
    ensures
        cli.command == Some(Command::List) ==> r is None,
        cli.command == Some(Command::Public) ==> (r matches Some(p) && p.names@.len() == 0
            && p.is_default_output && p.is_public),
        cli.command is None ==> (r matches Some(p) && p.names@.map_values(|s: String| s@)
            == cli.modules@.map_values(|s: String| s@) && p.is_default_output == (
        cli.modules@.len() == 0) && !p.is_public),
{
    match cli.command {
        Some(Command::List) => None,
        Some(Command::Public) => Some(
            FetchPlan { names: Vec::new(), is_default_output: true, is_public: true },
        ),
        None => {
            let mut names: Vec<String> = Vec::new();
            let mut i: usize = 0;
            while i < cli.modules.len()
                invariant
                    i <= cli.modules.len(),
                    names@.map_values(|s: String| s@) == cli.modules@.map_values(
                        |s: String| s@,
                    ).take(i as int),
                decreases cli.modules.len() - i,
            {
                let ghost before = names@.map_values(|s: String| s@);
                names.push(cli.modules[i].clone());
                assert(names@.map_values(|s: String| s@) =~= before.push(cli.modules@[i as int]@));
                i += 1;
                assert(cli.modules@.map_values(|s: String| s@).take(i as int) =~= cli.modules@.map_values(
                    |s: String| s@,
                ).take(i - 1).push(cli.modules@[i - 1]@));
            }
            assert(cli.modules@.map_values(|s: String| s@).take(cli.modules.len() as int)
                =~= cli.modules@.map_values(|s: String| s@));
            Some(
                FetchPlan {
                    names,
                    is_default_output: cli.modules.len() == 0,
                    is_public: false,
                },
            )
        },
    }
}

} // verus!
