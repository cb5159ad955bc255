//! Binding Omarchy's About menu item to omafetch: the wrapper script, the
//! Hyprland module, and the edits to `hyprland.lua` that load or unload it.
//!
//! The edits are functions on the file's text; reading and writing the
//! files is the caller's part.

use vstd::prelude::*;
use crate::omarchy::paths::{path_join, path_join_of};
use crate::text::{
    chars_of, concat, contains, contains_exec, ends_with, ends_with_exec, eq_exec, find,
    find_exec, is_ws, is_ws_exec, join, join_exec, lemma_find, lemma_line_split,
    lemma_lines_append, lemma_lines_line, lemma_trim_commute, lemma_trim_end_concat,
    lemma_trim_end_idem, lemma_trim_end_prefix, lemma_trim_end_push_ws, lemma_trim_of_trim_end,
    lemma_trim_strip_cr, lemma_lines_no_newline, lemma_lines_of_join, lemma_contains_sub,
    lemma_contains_split, lemma_contains_trim, lemma_contains_of_trim, lemma_contains_absent,
    has_crlf, lemma_crlf_sub, lemma_crlf_concat, lemma_join_lines, lines, lines_exec, starts_with, starts_with_exec, string_of, strip_cr,
    trim, trim_end, trim_end_exec, trim_exec, trim_start, views, slice,
};

verus! {

/// The command that Omarchy's About menu item runs.
pub const WRAPPER_NAME: &'static str = "omarchy-launch-about";
/// The line that loads the omafetch Hyprland module.
pub const REQUIRE_LINE: &'static str = "require(\"hypr.omafetch\")";

/// The wrapper script that opens omafetch for About.
pub const WRAPPER_SOURCE: &'static str = "\
#!/usr/bin/env bash
# Replace Omarchy's About launcher so the stock menu item opens omafetch.
exec omarchy-launch-or-focus-tui omafetch about
";

/// The Hyprland module that puts the wrapper first on `PATH` and sizes the
/// About window.
pub const HYPR_MODULE_SOURCE: &'static str = "\
-- Written by `omafetch bind`. Prefer ~/.local/bin so the stock
-- omarchy-launch-about command runs the omafetch wrapper.
do
  local home = os.getenv(\"HOME\") or \"\"
  local omarchy_bin = (os.getenv(\"OMARCHY_PATH\") or \"/usr/share/omarchy\") .. \"/bin\"
  local local_bin = home .. \"/.local/bin\"
  local kept = {}
  local seen = {}
  local function add(dir)
    if dir ~= \"\" and not seen[dir] then
      seen[dir] = true
      table.insert(kept, dir)
    end
  end
  add(local_bin)
  add(omarchy_bin)
  for entry in (os.getenv(\"PATH\") or \"/usr/local/bin:/usr/bin\"):gmatch(\"[^:]+\") do
    if entry ~= omarchy_bin then
      add(entry)
    end
  end
  hl.env(\"PATH\", table.concat(kept, \":\"))
end

-- About window: default fetch is 72x36 cells plus Ghostty pad and borders.
o.window(\"org.omarchy.omafetch\", { float = true })
o.window(\"org.omarchy.omafetch\", { center = true })
o.window(\"org.omarchy.omafetch\", { size = { 724, 714 } })
";

/// Where the About binding puts its files.
#[derive(Debug, Clone, PartialEq, Eq)]
pub struct BindPaths {
    pub local_bin: String,
    pub hyprland_lua: String,
    pub omafetch_lua: String,
}

impl BindPaths {
    /// The binding's paths under a home directory.
    pub fn from_home(home: &str) -> (r: Self)
        ensures
            r.local_bin@ == path_join_of(home@, ".local/bin"@),
            r.hyprland_lua@ == path_join_of(home@, ".config/hypr/hyprland.lua"@),
            r.omafetch_lua@ == path_join_of(home@, ".config/hypr/omafetch.lua"@),
    {
        BindPaths {
            local_bin: path_join(home, ".local/bin"),
            hyprland_lua: path_join(home, ".config/hypr/hyprland.lua"),
            omafetch_lua: path_join(home, ".config/hypr/omafetch.lua"),
        }
    }

    /// Where the wrapper script goes: the About command's name in the local
    /// bin directory.
    pub fn wrapper(&self) -> (r: String)
        ensures
            r@ == path_join_of(self.local_bin@, WRAPPER_NAME@),
    {
        path_join(self.local_bin.as_str(), WRAPPER_NAME)
    }
}

// ---------------------------------------------------------------------------
// Text edits
// ---------------------------------------------------------------------------

/// The text without trailing whitespace, ended by exactly one newline.
pub open spec fn normalized(s: Seq<char>) -> Seq<char> {
    trim_end(s).push('\n')
}

fn normalize_trailing_newline(source: &Vec<char>) -> (r: Vec<char>)
    ensures
        r@ == normalized(source@),
{
    let mut t = trim_end_exec(source);
    t.push('\n');
    t
}

/// Whether one of the lines, trimmed, is the require line.
pub open spec fn any_require(ls: Seq<Seq<char>>) -> bool
    decreases ls.len(),
{
    ls.len() > 0 && (trim(ls.last()) == REQUIRE_LINE@ || any_require(ls.drop_last()))
}

/// The Hyprland autostart require, after which the omafetch require goes.
pub open spec fn autostart() -> Seq<char> {
    "require(\"hypr.autostart\")"@
}

/// `hyprland.lua` with the omafetch require: unchanged (but for its ending)
/// when a line already is the require; otherwise the require goes on a line
/// of its own right after the autostart require, or at the end when there
/// is none.
pub open spec fn ensure_require_of(s: Seq<char>) -> Seq<char> {
    if any_require(lines(s)) {
        normalized(s)
    } else {
        match find(s, autostart()) {
            Some(i) => {
                let at = i + autostart().len();
                normalized(s.take(at) + "\n"@ + REQUIRE_LINE@ + "\n"@ + s.skip(at))
            },
            None => (if ends_with(s, "\n"@) {
                s
            } else {
                s.push('\n')
            }) + REQUIRE_LINE@ + "\n"@,
        }
    }
}

fn has_require(ls: &Vec<Vec<char>>) -> (b: bool)
    ensures
        b == any_require(views(ls@)),
{
    let req = chars_of(REQUIRE_LINE);
    let ghost vl = views(ls@);
    let mut i: usize = 0;
    let mut found = false;
    while i < ls.len()
        invariant
            i <= ls.len(),
            vl == views(ls@),
            req@ == REQUIRE_LINE@,
            found == any_require(vl.take(i as int)),
        decreases ls.len() - i,
    {
        assert(vl.take(i + 1).drop_last() =~= vl.take(i as int));
        assert(vl.take(i + 1).last() == ls@[i as int]@);
        if eq_exec(&trim_exec(&ls[i]), &req) {
            found = true;
        }
        i += 1;
    }
    assert(vl.take(ls.len() as int) =~= vl);
    found
}

/// Adds the omafetch require to the text of `hyprland.lua` unless a line
/// already is that require.
pub fn ensure_require(source: &str) -> (r: String)
    ensures
        r@ == ensure_require_of(source@),
{
    let s = chars_of(source);
    let ls = lines_exec(&s);
    if has_require(&ls) {
        return string_of(&normalize_trailing_newline(&s));
    }
    let auto = chars_of("require(\"hypr.autostart\")");
    let req = chars_of(REQUIRE_LINE);
    match find_exec(&s, &auto) {
        Some(i) => {
            proof {
                lemma_find(s@, auto@);
            }
            let at = i + auto.len();
            let mut updated = slice(&s, 0, at);
            updated.push('\n');
            crate::text::append(&mut updated, &req);
            updated.push('\n');
            crate::text::append(&mut updated, &slice(&s, at, s.len()));
            assert(updated@ =~= s@.take(at as int) + "\n"@ + REQUIRE_LINE@ + "\n"@ + s@.skip(
                at as int,
            )) by {
                reveal_strlit("\n");
            }
            string_of(&normalize_trailing_newline(&updated))
        },
        None => {
            let mut updated = s.clone();
            if !ends_with_exec(&updated, &chars_of("\n")) {
                updated.push('\n');
            }
            crate::text::append(&mut updated, &req);
            updated.push('\n');
            assert(updated@ =~= (if ends_with(s@, "\n"@) {
                s@
            } else {
                s@.push('\n')
            }) + REQUIRE_LINE@ + "\n"@) by {
                reveal_strlit("\n");
            }
            string_of(&updated)
        },
    }
}

/// The lines that are not, trimmed, the require line.
pub open spec fn without_require(ls: Seq<Seq<char>>) -> Seq<Seq<char>>
    decreases ls.len(),
{
    if ls.len() == 0 {
        seq![]
    } else {
        let prev = without_require(ls.drop_last());
        if trim(ls.last()) == REQUIRE_LINE@ {
            prev
        } else {
            prev.push(ls.last())
        }
    }
}

/// `hyprland.lua` without the omafetch require lines.
pub open spec fn remove_require_of(s: Seq<char>) -> Seq<char> {
    normalized(join(without_require(lines(s)), "\n"@))
}

/// Removes every omafetch require line from the text of `hyprland.lua`.
pub fn remove_require(source: &str) -> (r: String)
    ensures
        r@ == remove_require_of(source@),
{
    let ls = lines_exec(&chars_of(source));
    let req = chars_of(REQUIRE_LINE);
    let ghost vl = views(ls@);
    let mut kept: Vec<Vec<char>> = Vec::new();
    let mut i: usize = 0;
    while i < ls.len()
        invariant
            i <= ls.len(),
            vl == views(ls@),
            req@ == REQUIRE_LINE@,
            views(kept@) == without_require(vl.take(i as int)),
        decreases ls.len() - i,
    {
        assert(vl.take(i + 1).drop_last() =~= vl.take(i as int));
        assert(vl.take(i + 1).last() == ls@[i as int]@);
        if !eq_exec(&trim_exec(&ls[i]), &req) {
            let ghost before = views(kept@);
            kept.push(ls[i].clone());
            assert(views(kept@) =~= before.push(ls@[i as int]@));
        }
        i += 1;
    }
    assert(vl.take(ls.len() as int) =~= vl);
    let joined = join_exec(&kept, &chars_of("\n"));
    string_of(&normalize_trailing_newline(&joined))
}

// ---------------------------------------------------------------------------
// Legacy inline rules
// ---------------------------------------------------------------------------

/// Whether a trimmed line belongs to the comments or window rules that
/// earlier versions wrote inline into `hyprland.lua`.
pub open spec fn is_legacy_marker(t: Seq<char>) -> bool {
    contains(t, "omarchy-launch-about wrapper"@) || contains(
        t,
        "Omarchy's env setup puts its bin first"@,
    ) || contains(t, "omafetch About:"@) || contains(t, "org.omarchy.omafetch"@) || contains(
        t,
        "pad and Hyprland borders"@,
    ) || contains(t, "Measured on this machine at"@)
}

/// The state of the legacy scan: the lines kept, whether a legacy `do`
/// block is being skipped, its nesting depth, and whether a `do` that
/// follows should be skipped.
pub type LegacyScan = (Seq<Seq<char>>, bool, int, bool);

/// Whether a trimmed line opens a `do` block.
pub open spec fn opens_do(t: Seq<char>) -> bool {
    t == "do"@ || starts_with(t, "do "@)
}

/// Whether a line is an unindented `end`.
pub open spec fn closes_block(line: Seq<char>) -> bool {
    trim(line) == "end"@ && !(line.len() > 0 && is_ws(line[0]))
}

/// One line of the legacy scan. Inside a skipped block, `do` lines nest and
/// an unindented `end` closes a level; the block ends when the depth reaches
/// zero. Outside, a legacy marker line is dropped and arms the skipping of
/// a following `do` line, which starts a skipped block; any other line is
/// kept, and a line that is neither blank nor a comment disarms it.
pub open spec fn legacy_step(st: LegacyScan, line: Seq<char>) -> LegacyScan {
    let t = trim(line);
    let (out, skipping, depth, skip_do) = st;
    if skipping {
        let d1 = if opens_do(t) {
            depth + 1
        } else {
            depth
        };
        if closes_block(line) {
            (out, d1 - 1 != 0, d1 - 1, skip_do)
        } else {
            (out, true, d1, skip_do)
        }
    } else if is_legacy_marker(t) {
        (out, false, depth, true)
    } else if t == "do"@ && skip_do {
        (out, true, 1, false)
    } else {
        let armed = if t.len() > 0 && !starts_with(t, "--"@) {
            false
        } else {
            skip_do
        };
        (out.push(line), false, depth, armed)
    }
}

/// The legacy scan over the lines in order.
pub open spec fn legacy_fold(ls: Seq<Seq<char>>) -> LegacyScan
    decreases ls.len(),
{
    if ls.len() == 0 {
        (seq![], false, 0, false)
    } else {
        legacy_step(legacy_fold(ls.drop_last()), ls.last())
    }
}

/// `hyprland.lua` without the inline rules earlier versions wrote.
pub open spec fn strip_legacy_of(s: Seq<char>) -> Seq<char> {
    normalized(join(legacy_fold(lines(s)).0, "\n"@))
}

fn is_legacy_marker_exec(t: &Vec<char>) -> (b: bool)
    ensures
        b == is_legacy_marker(t@),
{
    contains_exec(t, &chars_of("omarchy-launch-about wrapper")) || contains_exec(
        t,
        &chars_of("Omarchy's env setup puts its bin first"),
    ) || contains_exec(t, &chars_of("omafetch About:")) || contains_exec(
        t,
        &chars_of("org.omarchy.omafetch"),
    ) || contains_exec(t, &chars_of("pad and Hyprland borders")) || contains_exec(
        t,
        &chars_of("Measured on this machine at"),
    )
}

proof fn lemma_depth_bound(ls: Seq<Seq<char>>)
    ensures
        0 <= legacy_fold(ls).2 <= ls.len(),
        legacy_fold(ls).1 ==> legacy_fold(ls).2 > 0,
    decreases ls.len(),
{
    if ls.len() > 0 {
        lemma_depth_bound(ls.drop_last());
    }
}

/// Removes the comments, `PATH` block and window rules that earlier
/// versions wrote inline into `hyprland.lua`.
pub fn strip_legacy_inline(source: &str) -> (r: String)
    ensures
        r@ == strip_legacy_of(source@),
{
    let ls = lines_exec(&chars_of(source));
    let ghost vl = views(ls@);
    let do_kw = chars_of("do");
    let do_sp = chars_of("do ");
    let end_kw = chars_of("end");
    let comment = chars_of("--");
    let mut output: Vec<Vec<char>> = Vec::new();
    let mut skipping_do = false;
    let mut do_depth: usize = 0;
    let mut skip_following_do = false;
    let mut i: usize = 0;
    while i < ls.len()
        invariant
            i <= ls.len(),
            vl == views(ls@),
            do_kw@ == "do"@,
            do_sp@ == "do "@,
            end_kw@ == "end"@,
            comment@ == "--"@,
            legacy_fold(vl.take(i as int)) == (
                views(output@),
                skipping_do,
                do_depth as int,
                skip_following_do,
            ),
        decreases ls.len() - i,
    {
        assert(vl.take(i + 1).drop_last() =~= vl.take(i as int));
        assert(vl.take(i + 1).last() == ls@[i as int]@);
        proof {
            lemma_depth_bound(vl.take(i as int));
        }
        let line = &ls[i];
        let trimmed = trim_exec(line);
        if skipping_do {
            if eq_exec(&trimmed, &do_kw) || starts_with_exec(&trimmed, &do_sp) {
                do_depth += 1;
            }
            let indented = line.len() > 0 && is_ws_exec(line[0]);
            if eq_exec(&trimmed, &end_kw) && !indented {
                do_depth -= 1;
                if do_depth == 0 {
                    skipping_do = false;
                }
            }
        } else if is_legacy_marker_exec(&trimmed) {
            skip_following_do = true;
        } else if eq_exec(&trimmed, &do_kw) && skip_following_do {
            skipping_do = true;
            do_depth = 1;
            skip_following_do = false;
        } else {
            if trimmed.len() > 0 && !starts_with_exec(&trimmed, &comment) {
                skip_following_do = false;
            }
            let ghost before = views(output@);
            output.push(line.clone());
            assert(views(output@) =~= before.push(line@));
        }
        i += 1;
    }
    assert(vl.take(ls.len() as int) =~= vl);
    let joined = join_exec(&output, &chars_of("\n"));
    string_of(&normalize_trailing_newline(&joined))
}

// ---------------------------------------------------------------------------
// Adding and removing the require
// ---------------------------------------------------------------------------

/// What the require line's text is made of: one line, not empty, with no
/// whitespace at either end.
proof fn lemma_require_text()
    ensures
        forall|j: int| 0 <= j < REQUIRE_LINE@.len() ==> REQUIRE_LINE@[j] != '\n',
        REQUIRE_LINE@.len() > 0,
        !is_ws(REQUIRE_LINE@.last()),
        trim(REQUIRE_LINE@) == REQUIRE_LINE@,
        trim_end(REQUIRE_LINE@) == REQUIRE_LINE@,
        strip_cr(REQUIRE_LINE@) == REQUIRE_LINE@,
{
    reveal_strlit("require(\"hypr.omafetch\")");
    let r = REQUIRE_LINE@;
    assert(r =~= seq!['r', 'e', 'q', 'u', 'i', 'r', 'e', '(', '"', 'h', 'y', 'p', 'r', '.', 'o', 'm', 'a', 'f', 'e', 't', 'c', 'h', '"', ')']);
    assert(trim_start(r) == r);
}

/// A list of lines with the require line at `k` has a require line.
proof fn lemma_any_require_at(ls: Seq<Seq<char>>, k: int)
    requires
        0 <= k < ls.len(),
        trim(ls[k]) == REQUIRE_LINE@,
    ensures
        any_require(ls),
    decreases ls.len(),
{
    if k < ls.len() - 1 {
        lemma_any_require_at(ls.drop_last(), k);
    }
}

/// Where the require line is, in a list of lines that has one.
proof fn require_index(ls: Seq<Seq<char>>) -> (k: int)
    requires
        any_require(ls),
    ensures
        0 <= k < ls.len(),
        trim(ls[k]) == REQUIRE_LINE@,
    decreases ls.len(),
{
    if trim(ls.last()) == REQUIRE_LINE@ {
        ls.len() - 1
    } else {
        let k = require_index(ls.drop_last());
        assert(ls.drop_last()[k] == ls[k]);
        k
    }
}

/// Normalizing the ending twice is normalizing it once.
proof fn lemma_normalized_idem(x: Seq<char>)
    ensures
        normalized(normalized(x)) == normalized(x),
{
    lemma_trim_end_push_ws(trim_end(x), '\n');
    lemma_trim_end_idem(x);
}

/// A text that is `p` (empty or ending with a line ending), a piece without
/// line endings that trims to the require line, a line ending and more, has
/// a require line.
proof fn lemma_require_after(p: Seq<char>, piece: Seq<char>, w: Seq<char>)
    requires
        p.len() == 0 || p.last() == '\n',
        forall|j: int| 0 <= j < piece.len() ==> piece[j] != '\n',
        trim(piece) == REQUIRE_LINE@,
    ensures
        any_require(lines(p + (piece + seq!['\n'] + w))),
{
    lemma_lines_append(p, piece + seq!['\n'] + w);
    lemma_lines_line(piece, w);
    let idx = lines(p).len() as int;
    assert(lines(p + (piece + seq!['\n'] + w))[idx] == strip_cr(piece));
    lemma_trim_strip_cr(piece);
    lemma_any_require_at(lines(p + (piece + seq!['\n'] + w)), idx);
}

/// Case of a file that already has the require line: the normalized file
/// still has it.
proof fn lemma_normalized_keeps_require(s: Seq<char>)
    requires
        any_require(lines(s)),
    ensures
        any_require(lines(normalized(s))),
{
    lemma_require_text();
    let nl = seq!['\n'];
    let k = require_index(lines(s));
    let (p, seg, rest) = lemma_line_split(s, k);
    lemma_trim_commute(seg);
    lemma_trim_end_prefix(seg);
    let te = trim_end(seg);
    assert(te.len() > 0) by {
        if te.len() == 0 {
            assert(trim_start(te) == te);
        }
    }
    assert(s == (p + seg) + rest);
    lemma_trim_end_concat(p + seg, rest);
    if trim_end(rest).len() > 0 {
        let r2 = rest.drop_first();
        assert(rest =~= nl + r2);
        lemma_trim_end_concat(nl, r2);
        assert(nl.drop_last() =~= Seq::<char>::empty());
        assert(trim_end(nl) == trim_end(nl.drop_last()));
        assert(trim_end(nl).len() == 0);
        let w = trim_end(r2).push('\n');
        assert(normalized(s) =~= p + (seg + nl + w));
        lemma_require_after(p, seg, w);
    } else {
        lemma_trim_end_concat(p, seg);
        assert forall|j: int| 0 <= j < te.len() implies te[j] != '\n' by {
            assert(te[j] == seg[j]);
        }
        lemma_trim_of_trim_end(seg);
        assert(normalized(s) =~= p + (te + nl + Seq::<char>::empty()));
        lemma_require_after(p, te, Seq::<char>::empty());
    }
}

/// After the require is added, a line of the file is the require, and the
/// file's ending is normalized.
pub proof fn lemma_ensure_require_adds(s: Seq<char>)
    ensures
        any_require(lines(ensure_require_of(s))),
        normalized(ensure_require_of(s)) == ensure_require_of(s),
{
    lemma_require_text();
    reveal_strlit("\n");
    let nl = seq!['\n'];
    assert("\n"@ =~= nl);
    let req = REQUIRE_LINE@;
    let t = ensure_require_of(s);
    if any_require(lines(s)) {
        lemma_normalized_keeps_require(s);
        lemma_normalized_idem(s);
    } else {
        match find(s, autostart()) {
            Some(i) => {
                lemma_find(s, autostart());
                let at = i + autostart().len();
                let a = s.take(at);
                let b = s.skip(at);
                let u = a + "\n"@ + req + "\n"@ + b;
                assert(t == normalized(u));
                assert(u =~= (a + nl + req) + (nl + b));
                lemma_trim_end_concat(a + nl + req, nl + b);
                assert((a + nl).last() == '\n');
                if trim_end(nl + b).len() > 0 {
                    lemma_trim_end_concat(nl, b);
                    assert(nl.drop_last() =~= Seq::<char>::empty());
                    assert(trim_end(nl) == trim_end(nl.drop_last()));
                    let w = trim_end(b).push('\n');
                    assert(t =~= (a + nl) + (req + nl + w));
                    lemma_require_after(a + nl, req, w);
                } else {
                    lemma_trim_end_concat(a + nl, req);
                    assert(t =~= (a + nl) + (req + nl + Seq::<char>::empty()));
                    lemma_require_after(a + nl, req, Seq::<char>::empty());
                }
                lemma_normalized_idem(u);
            },
            None => {
                let p = if ends_with(s, "\n"@) {
                    s
                } else {
                    s.push('\n')
                };
                if ends_with(s, "\n"@) {
                    assert(s.skip(s.len() - 1)[0] == s.last());
                }
                assert(p.last() == '\n');
                assert(t =~= p + (req + nl + Seq::<char>::empty()));
                lemma_require_after(p, req, Seq::<char>::empty());
                assert(t =~= (p + req).push('\n'));
                lemma_trim_end_push_ws(p + req, '\n');
                lemma_trim_end_concat(p, req);
            },
        }
    }
}

/// Adding the require line twice is adding it once: the second time finds
/// it and leaves the file as it is.
pub proof fn lemma_ensure_require_idempotent(s: Seq<char>)
    ensures
        ensure_require_of(ensure_require_of(s)) == ensure_require_of(s),
{
    lemma_ensure_require_adds(s);
}

/// No line of the normalized join of `ks` trims to the require line, when
/// none of `ks` does and none holds a line ending.
proof fn lemma_join_has_no_require(ks: Seq<Seq<char>>)
    requires
        forall|k: int, j: int| 0 <= k < ks.len() && 0 <= j < ks[k].len() ==> ks[k][j] != '\n',
        forall|k: int| 0 <= k < ks.len() ==> trim(#[trigger] ks[k]) != REQUIRE_LINE@,
    ensures
        forall|i: int|
            0 <= i < lines(normalized(join(ks, seq!['\n']))).len() ==> trim(
                #[trigger] lines(normalized(join(ks, seq!['\n'])))[i],
            ) != REQUIRE_LINE@,
    decreases ks.len(),
{
    lemma_require_text();
    let nl = seq!['\n'];
    let n = normalized(join(ks, nl));
    if ks.len() == 0 {
        assert(join(ks, nl) == Seq::<char>::empty());
        assert(n =~= Seq::<char>::empty() + nl + Seq::<char>::empty());
        lemma_lines_line(Seq::<char>::empty(), Seq::<char>::empty());
        assert(lines(Seq::<char>::empty()) == Seq::<Seq<char>>::empty());
        assert(lines(n) =~= seq![Seq::<char>::empty()]);
        assert(trim_start(Seq::<char>::empty()) == Seq::<char>::empty());
    } else {
        let k = ks.last();
        let front = ks.drop_last();
        assert(k == ks[ks.len() - 1]);
        assert forall|j: int| 0 <= j < k.len() implies k[j] != '\n' by {
            assert(ks[ks.len() - 1][j] != '\n');
        }
        assert forall|a: int, j: int|
            0 <= a < front.len() && 0 <= j < front[a].len() implies front[a][j] != '\n' by {
            assert(front[a] == ks[a]);
        }
        assert forall|a: int| 0 <= a < front.len() implies trim(#[trigger] front[a]) != REQUIRE_LINE@ by {
            assert(front[a] == ks[a]);
        }
        let pre = if front.len() == 0 {
            Seq::<char>::empty()
        } else {
            join(front, nl) + nl
        };
        assert(join(ks, nl) == pre + k) by {
            if front.len() == 0 {
                assert(ks.len() == 1);
                assert(join(ks, nl) == ks[0]);
                assert(Seq::<char>::empty() + k =~= k);
            }
        }
        lemma_trim_end_concat(pre, k);
        let te = trim_end(k);
        lemma_trim_end_prefix(k);
        if te.len() > 0 {
            assert forall|j: int| 0 <= j < te.len() implies te[j] != '\n' by {
                assert(te[j] == k[j]);
            }
            assert(n =~= pre + (te + nl + Seq::<char>::empty()));
            if pre.len() > 0 {
                assert(pre.last() == '\n');
            }
            lemma_lines_append(pre, te + nl + Seq::<char>::empty());
            lemma_lines_line(te, Seq::<char>::empty());
            assert(lines(Seq::<char>::empty()) == Seq::<Seq<char>>::empty());
            let pl = lines(pre);
            assert(lines(n) == pl + seq![strip_cr(te)]);
            lemma_trim_strip_cr(te);
            lemma_trim_of_trim_end(k);
            if front.len() > 0 {
                lemma_lines_of_join(front);
                assert(pl == front.map_values(|x: Seq<char>| strip_cr(x)));
            } else {
                assert(pl == Seq::<Seq<char>>::empty());
            }
            assert forall|i: int| 0 <= i < lines(n).len() implies trim(#[trigger] lines(n)[i])
                != REQUIRE_LINE@ by {
                if i < pl.len() {
                    assert(lines(n)[i] == pl[i]);
                    assert(pl[i] == strip_cr(front[i]));
                    lemma_trim_strip_cr(front[i]);
                } else {
                    assert(lines(n)[i] == strip_cr(te));
                }
            }
        } else {
            lemma_join_has_no_require(front);
            if front.len() == 0 {
                assert(trim_end(join(ks, nl)) == trim_end(Seq::<char>::empty()));
                assert(n == normalized(join(front, nl)));
            } else {
                lemma_trim_end_push_ws(join(front, nl), '\n');
                assert(join(front, nl) + nl =~= join(front, nl).push('\n'));
                assert(trim_end(join(ks, nl)) == trim_end(join(front, nl)));
                assert(n == normalized(join(front, nl)));
            }
        }
    }
}

/// Unbinding leaves no require line: no line of the edited file trims to
/// the omafetch require.
pub proof fn lemma_remove_require_removes(s: Seq<char>)
    ensures
        !any_require(lines(remove_require_of(s))),
{
    reveal_strlit("\n");
    let nl = seq!['\n'];
    assert("\n"@ =~= nl);
    let ks = without_require(lines(s));
    lemma_lines_no_newline(s);
    lemma_without_require_clean(lines(s));
    lemma_join_has_no_require(ks);
    let out = lines(remove_require_of(s));
    if any_require(out) {
        let k = require_index(out);
        assert(trim(out[k]) != REQUIRE_LINE@);
    }
}

/// The kept lines hold no line ending and none trims to the require.
proof fn lemma_without_require_clean(ls: Seq<Seq<char>>)
    requires
        forall|k: int, j: int| 0 <= k < ls.len() && 0 <= j < ls[k].len() ==> ls[k][j] != '\n',
    ensures
        forall|k: int, j: int|
            0 <= k < without_require(ls).len() && 0 <= j < without_require(ls)[k].len()
                ==> without_require(ls)[k][j] != '\n',
        forall|k: int|
            0 <= k < without_require(ls).len() ==> trim(#[trigger] without_require(ls)[k])
                != REQUIRE_LINE@,
    decreases ls.len(),
{
    if ls.len() > 0 {
        let front = ls.drop_last();
        assert forall|k: int, j: int|
            0 <= k < front.len() && 0 <= j < front[k].len() implies front[k][j] != '\n' by {
            assert(front[k] == ls[k]);
        }
        lemma_without_require_clean(front);
        let prev = without_require(front);
        if trim(ls.last()) != REQUIRE_LINE@ {
            let w = prev.push(ls.last());
            assert forall|k: int, j: int|
                0 <= k < w.len() && 0 <= j < w[k].len() implies w[k][j] != '\n' by {
                if k < prev.len() {
                    assert(w[k] == prev[k]);
                } else {
                    assert(w[k] == ls[ls.len() - 1]);
                }
            }
            assert forall|k: int| 0 <= k < w.len() implies trim(#[trigger] w[k]) != REQUIRE_LINE@ by {
                if k < prev.len() {
                    assert(w[k] == prev[k]);
                }
            }
        }
    }
}


// ---------------------------------------------------------------------------
// Binding twice
// ---------------------------------------------------------------------------

/// The texts whose presence makes a line a legacy marker.
spec fn marker(k: int) -> Seq<char> {
    if k == 0 {
        "omarchy-launch-about wrapper"@
    } else if k == 1 {
        "Omarchy's env setup puts its bin first"@
    } else if k == 2 {
        "omafetch About:"@
    } else if k == 3 {
        "org.omarchy.omafetch"@
    } else if k == 4 {
        "pad and Hyprland borders"@
    } else {
        "Measured on this machine at"@
    }
}

/// A line is a legacy marker when one of the marker texts occurs in it.
proof fn lemma_marker_cases(t: Seq<char>)
    ensures
        is_legacy_marker(t) <==> exists|k: int| 0 <= k < 6 && contains(t, #[trigger] marker(k)),
{
    if is_legacy_marker(t) {
        if contains(t, marker(0)) {
        } else if contains(t, marker(1)) {
        } else if contains(t, marker(2)) {
        } else if contains(t, marker(3)) {
        } else if contains(t, marker(4)) {
        } else {
            assert(contains(t, marker(5)));
        }
    }
}

/// Each marker text is one line, not empty, and starts and ends with
/// non-whitespace; each but the fourth has a space, and the fourth a `g`.
proof fn lemma_markers_shape()
    ensures
        forall|k: int|
            0 <= k < 6 ==> #[trigger] marker(k).len() > 0 && !is_ws(marker(k)[0]) && !is_ws(
                marker(k).last(),
            ) && (forall|j: int| 0 <= j < marker(k).len() ==> marker(k)[j] != '\n'),
        forall|k: int| #![trigger marker(k)] 0 <= k < 6 && k != 3 ==> exists|j: int| 0 <= j < marker(k).len() && #[trigger] marker(k)[j] == ' ',
        marker(3).len() > 2,
        marker(3)[2] == 'g',
{
    reveal_strlit("omarchy-launch-about wrapper");
    reveal_strlit("Omarchy's env setup puts its bin first");
    reveal_strlit("omafetch About:");
    reveal_strlit("org.omarchy.omafetch");
    reveal_strlit("pad and Hyprland borders");
    reveal_strlit("Measured on this machine at");
    assert(marker(0)[20] == ' ');
    assert(marker(1)[9] == ' ');
    assert(marker(2)[8] == ' ');
    assert(marker(4)[3] == ' ');
    assert(marker(5)[8] == ' ');
}

/// A piece of a text without markers has none.
proof fn lemma_no_marker_sub(x: Seq<char>, a: int, b: int)
    requires
        0 <= a <= b <= x.len(),
        !is_legacy_marker(x),
    ensures
        !is_legacy_marker(x.subrange(a, b)),
{
    lemma_marker_cases(x);
    lemma_marker_cases(x.subrange(a, b));
    assert forall|k: int| 0 <= k < 6 implies !contains(x.subrange(a, b), #[trigger] marker(k)) by {
        if contains(x.subrange(a, b), marker(k)) {
            lemma_contains_sub(x, a, b, marker(k));
        }
    }
}

/// Two texts without markers joined by a line ending have none.
proof fn lemma_no_marker_split(a: Seq<char>, b: Seq<char>)
    requires
        !is_legacy_marker(a),
        !is_legacy_marker(b),
    ensures
        !is_legacy_marker(a + seq!['\n'] + b),
{
    lemma_markers_shape();
    lemma_marker_cases(a);
    lemma_marker_cases(b);
    lemma_marker_cases(a + seq!['\n'] + b);
    assert forall|k: int| 0 <= k < 6 implies !contains(a + seq!['\n'] + b, #[trigger] marker(k)) by {
        assert(marker(k).len() > 0);
        if contains(a + seq!['\n'] + b, marker(k)) {
            lemma_contains_split(a, b, marker(k));
        }
    }
}

/// A line with a marker still has it trimmed, and the other way round.
proof fn lemma_marker_trim(x: Seq<char>)
    ensures
        is_legacy_marker(trim(x)) == is_legacy_marker(x),
{
    lemma_markers_shape();
    lemma_marker_cases(x);
    lemma_marker_cases(trim(x));
    assert forall|k: int| 0 <= k < 6 implies contains(trim(x), #[trigger] marker(k)) == contains(
        x,
        marker(k),
    ) by {
        assert(marker(k).len() > 0);
        if contains(x, marker(k)) {
            lemma_contains_trim(x, marker(k));
        }
        if contains(trim(x), marker(k)) {
            lemma_contains_of_trim(x, marker(k));
        }
    }
}

/// The empty text and the require line have no marker.
proof fn lemma_no_marker_basics()
    ensures
        !is_legacy_marker(Seq::<char>::empty()),
        !is_legacy_marker(REQUIRE_LINE@),
{
    lemma_markers_shape();
    lemma_require_text();
    reveal_strlit("require(\"hypr.omafetch\")");
    let r = REQUIRE_LINE@;
    lemma_marker_cases(Seq::<char>::empty());
    lemma_marker_cases(r);
    assert forall|k: int| 0 <= k < 6 implies !contains(Seq::<char>::empty(), #[trigger] marker(k)) by {
        assert(marker(k).len() > 0);
        lemma_contains_absent(Seq::<char>::empty(), marker(k), 0);
    }
    assert forall|k: int| 0 <= k < 6 implies !contains(r, #[trigger] marker(k)) by {
        if k == 3 {
            assert forall|i: int| 0 <= i < r.len() implies r[i] != marker(3)[2] by {}
            lemma_contains_absent(r, marker(3), 2);
        } else {
            let j = choose|j: int| 0 <= j < marker(k).len() && #[trigger] marker(k)[j] == ' ';
            assert forall|i: int| 0 <= i < r.len() implies r[i] != marker(k)[j] by {}
            lemma_contains_absent(r, marker(k), j);
        }
    }
}

/// Parts joined by line endings have no marker when none of them has.
proof fn lemma_join_no_marker(ks: Seq<Seq<char>>)
    requires
        forall|k: int| 0 <= k < ks.len() ==> !is_legacy_marker(#[trigger] ks[k]),
    ensures
        !is_legacy_marker(join(ks, seq!['\n'])),
    decreases ks.len(),
{
    lemma_no_marker_basics();
    if ks.len() == 1 {
        assert(!is_legacy_marker(ks[0]));
    } else if ks.len() > 1 {
        let front = ks.drop_last();
        assert forall|k: int| 0 <= k < front.len() implies !is_legacy_marker(#[trigger] front[k]) by {
            assert(front[k] == ks[k]);
        }
        lemma_join_no_marker(front);
        assert(!is_legacy_marker(ks[ks.len() - 1]));
        lemma_no_marker_split(join(front, seq!['\n']), ks.last());
    }
}

/// The lines the legacy scan keeps are lines of the input that are not
/// markers.
proof fn lemma_fold_kept(ls: Seq<Seq<char>>)
    ensures
        forall|k: int|
            0 <= k < legacy_fold(ls).0.len() ==> !is_legacy_marker(
                trim(#[trigger] legacy_fold(ls).0[k]),
            ),
    decreases ls.len(),
{
    if ls.len() > 0 {
        lemma_fold_kept(ls.drop_last());
        let prev = legacy_fold(ls.drop_last());
        let out = legacy_fold(ls).0;
        assert forall|k: int| 0 <= k < out.len() implies !is_legacy_marker(trim(#[trigger] out[k])) by {
            if k < prev.0.len() {
                assert(out[k] == prev.0[k]);
            }
        }
    }
}

/// With no marker line, the scan keeps every line.
proof fn lemma_fold_all(ls: Seq<Seq<char>>)
    requires
        forall|k: int| 0 <= k < ls.len() ==> !is_legacy_marker(trim(#[trigger] ls[k])),
    ensures
        legacy_fold(ls) == (ls, false, 0int, false),
    decreases ls.len(),
{
    if ls.len() > 0 {
        let front = ls.drop_last();
        assert forall|k: int| 0 <= k < front.len() implies !is_legacy_marker(trim(#[trigger] front[k])) by {
            assert(front[k] == ls[k]);
        }
        lemma_fold_all(front);
        assert(!is_legacy_marker(trim(ls[ls.len() - 1])));
        assert(front.push(ls.last()) =~= ls);
    }
}

/// A text whose ending is already normalized ends with a line ending.
proof fn lemma_normal_ending(x: Seq<char>)
    requires
        normalized(x) == x,
    ensures
        x.len() > 0,
        x.last() == '\n',
        x.drop_last() == trim_end(x.drop_last()),
{
    lemma_trim_end_push_ws(x.drop_last(), '\n');
    assert(x.drop_last().push('\n') =~= x);
}

/// What the legacy strip leaves has no marker and a normalized ending.
pub proof fn lemma_stripped_clean(s: Seq<char>)
    ensures
        !is_legacy_marker(strip_legacy_of(s)),
        normalized(strip_legacy_of(s)) == strip_legacy_of(s),
{
    let nl = seq!['\n'];
    reveal_strlit("\n");
    assert("\n"@ =~= nl);
    let kept = legacy_fold(lines(s)).0;
    lemma_fold_kept(lines(s));
    assert forall|k: int| 0 <= k < kept.len() implies !is_legacy_marker(#[trigger] kept[k]) by {
        lemma_marker_trim(kept[k]);
    }
    lemma_join_no_marker(kept);
    let j = join(kept, nl);
    lemma_trim_end_prefix(j);
    let te = trim_end(j);
    lemma_no_marker_sub(j, 0, te.len() as int);
    assert(te =~= j.subrange(0, te.len() as int));
    lemma_no_marker_basics();
    lemma_no_marker_split(te, Seq::<char>::empty());
    assert(strip_legacy_of(s) =~= te + nl + Seq::<char>::empty());
    lemma_normalized_idem(j);
}

/// Normalizing the ending of a text without markers keeps them out, brings
/// in no `"\r\n"`, and needs doing only once.
proof fn lemma_normalized_clean(u: Seq<char>)
    requires
        !is_legacy_marker(u),
    ensures
        !is_legacy_marker(normalized(u)),
        !has_crlf(u) ==> !has_crlf(normalized(u)),
        normalized(normalized(u)) == normalized(u),
{
    let nl = seq!['\n'];
    lemma_trim_end_prefix(u);
    let te = trim_end(u);
    assert(te =~= u.subrange(0, te.len() as int));
    lemma_no_marker_sub(u, 0, te.len() as int);
    lemma_no_marker_basics();
    lemma_no_marker_split(te, Seq::<char>::empty());
    assert(normalized(u) =~= te + nl + Seq::<char>::empty());
    if !has_crlf(u) {
        lemma_crlf_sub(u, 0, te.len() as int);
        assert(!has_crlf(nl));
        assert(is_ws('\r'));
        lemma_crlf_concat(te, nl);
        assert(te + nl =~= normalized(u));
    }
    lemma_normalized_idem(u);
}

/// Adding the require line to a text without markers, whose ending is
/// normalized, keeps both so and brings in no `"\r\n"`.
proof fn lemma_ensure_clean(t: Seq<char>)
    requires
        !is_legacy_marker(t),
        normalized(t) == t,
    ensures
        !is_legacy_marker(ensure_require_of(t)),
        !has_crlf(t) ==> !has_crlf(ensure_require_of(t)),
        normalized(ensure_require_of(t)) == ensure_require_of(t),
{
    lemma_require_text();
    lemma_no_marker_basics();
    lemma_normal_ending(t);
    reveal_strlit("\n");
    let nl = seq!['\n'];
    assert("\n"@ =~= nl);
    assert(!has_crlf(nl));
    let req = REQUIRE_LINE@;
    assert(!has_crlf(req)) by {
        if has_crlf(req) {
            let i = choose|i: int| 0 <= i < req.len() - 1 && #[trigger] req[i] == '\r' && req[i + 1] == '\n';
            assert(req[i + 1] != '\n');
        }
    }
    assert(!is_ws(')'));
    if any_require(lines(t)) {
    } else {
        match find(t, autostart()) {
            Some(i) => {
                lemma_find(t, autostart());
                reveal_strlit("require(\"hypr.autostart\")");
                let at = i + autostart().len();
                let a = t.take(at);
                let b = t.skip(at);
                assert(a.last() == t.subrange(i, at)[autostart().len() - 1]);
                assert(a.last() == ')');
                assert(a =~= t.subrange(0, at));
                assert(b =~= t.subrange(at, t.len() as int));
                lemma_no_marker_sub(t, 0, at);
                lemma_no_marker_sub(t, at, t.len() as int);
                let u = a + "\n"@ + req + "\n"@ + b;
                lemma_no_marker_split(req, b);
                lemma_no_marker_split(a, req + nl + b);
                assert(u =~= a + nl + (req + nl + b));
                if !has_crlf(t) {
                    lemma_crlf_sub(t, 0, at);
                    lemma_crlf_sub(t, at, t.len() as int);
                    lemma_crlf_concat(a, nl);
                    lemma_crlf_concat(a + nl, req);
                    lemma_crlf_concat(a + nl + req, nl);
                    lemma_crlf_concat(a + nl + req + nl, b);
                    assert(u =~= a + nl + req + nl + b);
                }
                lemma_normalized_clean(u);
            },
            None => {
                assert(t.skip(t.len() - 1) =~= nl);
                assert(ends_with(t, "\n"@));
                let y = t + req + "\n"@;
                assert(t =~= t.drop_last() + nl + Seq::<char>::empty());
                assert(t.drop_last() =~= t.subrange(0, t.len() - 1));
                lemma_no_marker_sub(t, 0, t.len() - 1);
                lemma_no_marker_split(req, Seq::<char>::empty());
                lemma_no_marker_split(t.drop_last(), req + nl + Seq::<char>::empty());
                assert(y =~= t.drop_last() + nl + (req + nl + Seq::<char>::empty()));
                if !has_crlf(t) {
                    lemma_crlf_concat(t, req);
                    lemma_crlf_concat(t + req, nl);
                }
                assert(y =~= (t + req).push('\n'));
                lemma_trim_end_push_ws(t + req, '\n');
                lemma_trim_end_concat(t, req);
            },
        }
    }
}

/// The legacy strip leaves a text without markers or `"\r\n"`, whose ending
/// is normalized, as it is.
proof fn lemma_strip_fixed(x: Seq<char>)
    requires
        !is_legacy_marker(x),
        !has_crlf(x),
        normalized(x) == x,
    ensures
        strip_legacy_of(x) == x,
{
    let nl = seq!['\n'];
    reveal_strlit("\n");
    assert("\n"@ =~= nl);
    lemma_normal_ending(x);
    let ls = lines(x);
    assert forall|k: int| 0 <= k < ls.len() implies !is_legacy_marker(trim(#[trigger] ls[k])) by {
        let (p, seg, r) = lemma_line_split(x, k);
        assert(seg =~= x.subrange(p.len() as int, (p.len() + seg.len()) as int));
        lemma_no_marker_sub(x, p.len() as int, (p.len() + seg.len()) as int);
        lemma_marker_trim(seg);
    }
    lemma_fold_all(ls);
    lemma_join_lines(x);
    assert(join(ls, nl) =~= x.drop_last());
    assert(x.drop_last().push('\n') =~= x);
}

/// The edit that binding makes to `hyprland.lua`: the legacy inline rules
/// out, the require in.
pub open spec fn bind_text_of(s: Seq<char>) -> Seq<char> {
    ensure_require_of(strip_legacy_of(s))
}

/// Edits the text of `hyprland.lua` for binding: strips the legacy inline
/// rules, then adds the require.
pub fn bind_hyprland(source: &str) -> (r: String)
    ensures
        r@ == bind_text_of(source@),
{
    let stripped = strip_legacy_inline(source);
    ensure_require(stripped.as_str())
}

/// After binding, a line of `hyprland.lua` is the omafetch require, and no
/// text that marks the legacy inline rules is left anywhere in the file.
pub proof fn lemma_bind_loads_module_without_legacy_rules(s: Seq<char>)
    ensures
        any_require(lines(bind_text_of(s))),
        !is_legacy_marker(bind_text_of(s)),
{
    lemma_stripped_clean(s);
    lemma_ensure_clean(strip_legacy_of(s));
    lemma_ensure_require_adds(strip_legacy_of(s));
}

/// Binding twice is binding once, unless what the legacy strip leaves has a
/// carriage return right before a line feed (which the second strip would
/// then remove).
pub proof fn lemma_bind_idempotent(s: Seq<char>)
    requires
        !has_crlf(strip_legacy_of(s)),
    ensures
        bind_text_of(bind_text_of(s)) == bind_text_of(s),
{
    let t = strip_legacy_of(s);
    lemma_stripped_clean(s);
    lemma_ensure_clean(t);
    let y = ensure_require_of(t);
    lemma_strip_fixed(y);
    lemma_ensure_require_idempotent(t);
}


/// Stripping the legacy rules twice is stripping them once, unless what the
/// first strip leaves has a carriage return right before a line feed (which
/// the second would then remove).
pub proof fn lemma_strip_legacy_idempotent(s: Seq<char>)
    requires
        !has_crlf(strip_legacy_of(s)),
    ensures
        strip_legacy_of(strip_legacy_of(s)) == strip_legacy_of(s),
{
    lemma_stripped_clean(s);
    lemma_strip_fixed(strip_legacy_of(s));
}

/// Whether the autostart require is absent from the text, or first found
/// on its last line, right before the final line ending.
pub open spec fn autostart_last_or_absent(s: Seq<char>) -> bool {
    match find(s, autostart()) {
        None => true,
        Some(i) => i + autostart().len() + 1 == s.len(),
    }
}

/// Lines none of which is the require are all kept.
proof fn lemma_without_require_keeps(ls: Seq<Seq<char>>)
    requires
        !any_require(ls),
    ensures
        without_require(ls) == ls,
    decreases ls.len(),
{
    if ls.len() > 0 {
        lemma_without_require_keeps(ls.drop_last());
        assert(ls.drop_last().push(ls.last()) =~= ls);
    }
}

/// Unbinding gives back the file that binding edited, for a file whose
/// ending is normalized, that has no `"\r\n"`, no legacy rules and no
/// require line, and whose autostart require is absent or on its last line.
pub proof fn lemma_unbind_undoes_bind(s: Seq<char>)
    requires
        normalized(s) == s,
        !has_crlf(s),
        !is_legacy_marker(s),
        !any_require(lines(s)),
        autostart_last_or_absent(s),
    ensures
        remove_require_of(bind_text_of(s)) == s,
{
    lemma_require_text();
    reveal_strlit("\n");
    let nl = seq!['\n'];
    assert("\n"@ =~= nl);
    let req = REQUIRE_LINE@;
    lemma_strip_fixed(s);
    lemma_normal_ending(s);
    let a = s.drop_last();
    assert(a.push('\n') =~= s);
    let t = s + req + nl;
    match find(s, autostart()) {
        Some(i) => {
            lemma_find(s, autostart());
            let at = i + autostart().len();
            assert(s.take(at) =~= a);
            assert(s.skip(at) =~= nl);
            let u = a + "\n"@ + req + "\n"@ + nl;
            assert(ensure_require_of(s) == normalized(u));
            assert(u =~= (a + nl + req) + (nl + nl));
            assert((nl + nl).drop_last() =~= nl);
            assert(nl.drop_last() =~= Seq::<char>::empty());
            assert(trim_end(nl) == trim_end(nl.drop_last()));
            assert(trim_end(nl + nl) == trim_end((nl + nl).drop_last()));
            assert(trim_end(nl + nl).len() == 0);
            lemma_trim_end_concat(a + nl + req, nl + nl);
            lemma_trim_end_concat(a + nl, req);
            assert(normalized(u) =~= t);
        },
        None => {
            assert(s.skip(s.len() - 1) =~= nl);
            assert(ends_with(s, "\n"@));
            assert(ensure_require_of(s) =~= t);
        },
    }
    assert(bind_text_of(s) == t);
    assert(t =~= s + (req + nl + Seq::<char>::empty()));
    lemma_lines_append(s, req + nl + Seq::<char>::empty());
    lemma_lines_line(req, Seq::<char>::empty());
    assert(lines(Seq::<char>::empty()) == Seq::<Seq<char>>::empty());
    let ls = lines(s);
    assert(lines(t) =~= ls.push(req));
    assert(ls.push(req).drop_last() =~= ls);
    assert(ls.push(req).last() == req);
    lemma_without_require_keeps(ls);
    assert(without_require(lines(t)) == ls);
    lemma_join_lines(s);
    assert(join(ls, nl) =~= a);
}

} // verus!
