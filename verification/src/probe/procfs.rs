//! Parsers for the text files under `/proc` and `/etc/os-release`.
//!
//! Each parser takes the file's contents; reading the file is left to the
//! caller.

use vstd::prelude::*;
use crate::text::{
    all_digits, chars_of, digits_val, first_stripped, first_stripped_exec, join, join_exec,
    lemma_digits_val_prefix, lines, lines_exec, opt_string, opt_view, parse_u64, parse_u64_exec,
    replace, replace_exec, split_once, split_once_exec, split_pat, split_pat_exec, starts_with,
    starts_with_exec, string_of, strip_prefix, strip_prefix_exec, trim, trim_exec,
    trim_matches_char, trim_matches_exec, views, words, words_exec, eq_exec, concat, contains,
    matches_at, lemma_contains_absent, lemma_replace_keeps_out, lemma_replace_removes,
    lemma_replace_leaves_other,
};

verus! {

/// Memory figures from `/proc/meminfo`, in KiB.
#[derive(Debug, Clone, Copy, PartialEq, Eq, Structural)]
pub struct MemInfo {
    pub total_kib: u64,
    pub available_kib: u64,
    pub swap_total_kib: u64,
    pub swap_free_kib: u64,
}

// ---------------------------------------------------------------------------
// os-release
// ---------------------------------------------------------------------------

/// The value of the first `key=value` line whose key is `key`, without the
/// quotes around it.
pub open spec fn key_value(ls: Seq<Seq<char>>, key: Seq<char>) -> Option<Seq<char>>
    decreases ls.len(),
{
    if ls.len() == 0 {
        None
    } else {
        match split_once(ls[0], "="@) {
            Some(kv) => if kv.0 == key {
                Some(trim_matches_char(kv.1, '"'))
            } else {
                key_value(ls.drop_first(), key)
            },
            None => key_value(ls.drop_first(), key),
        }
    }
}

/// The operating system's name in an os-release file: `PRETTY_NAME`, or
/// `NAME` when there is no pretty name.
pub open spec fn os_name_of(input: Seq<char>) -> Option<Seq<char>> {
    match key_value(lines(input), "PRETTY_NAME"@) {
        Some(v) => Some(v),
        None => key_value(lines(input), "NAME"@),
    }
}

fn parse_key_value(ls: &Vec<Vec<char>>, key: &str) -> (r: Option<Vec<char>>)
    ensures
        match r {
            Some(v) => key_value(views(ls@), key@) == Some(v@),
            None => key_value(views(ls@), key@) is None,
        },
{
    let k = chars_of(key);
    let eq = chars_of("=");
    let mut i: usize = 0;
    assert(views(ls@).skip(0) =~= views(ls@));
    while i < ls.len()
        invariant
            i <= ls.len(),
            k@ == key@,
            eq@ == "="@,
            key_value(views(ls@), key@) == key_value(views(ls@).skip(i as int), key@),
        decreases ls.len() - i,
    {
        assert(views(ls@).skip(i as int)[0] == ls@[i as int]@);
        assert(views(ls@).skip(i as int).drop_first() =~= views(ls@).skip(i + 1));
        match split_once_exec(&ls[i], &eq) {
            Some((candidate, value)) => {
                if eq_exec(&candidate, &k) {
                    return Some(trim_matches_exec(&value, '"'));
                }
            },
            None => {},
        }
        i += 1;
    }
    None
}

/// The operating system's name from the contents of an os-release file.
pub fn os_name_from(input: &str) -> (r: Option<String>)
    ensures
        opt_view(r) == os_name_of(input@),
{
    let ls = lines_exec(&chars_of(input));
    let found = match parse_key_value(&ls, "PRETTY_NAME") {
        Some(v) => Some(v),
        None => parse_key_value(&ls, "NAME"),
    };
    opt_string(found)
}

/// The operating system's name, given the os-release contents if there are
/// any.
pub fn os_name(os_release: Option<String>) -> (r: Option<String>)
    ensures
        opt_view(r) == match os_release {
            Some(s) => os_name_of(s@),
            None => None,
        },
{
    match os_release {
        Some(s) => os_name_from(s.as_str()),
        None => None,
    }
}

/// The kernel line, given the contents of `/proc/sys/kernel/osrelease`.
pub fn kernel(release: Option<String>) -> (r: Option<String>)
    ensures
        opt_view(r) == match release {
            Some(s) => Some("Linux "@ + s@),
            None => None,
        },
{
    match release {
        Some(s) => Some(string_of(&concat(&chars_of("Linux "), &chars_of(s.as_str())))),
        None => None,
    }
}

// ---------------------------------------------------------------------------
// Uptime
// ---------------------------------------------------------------------------

/// A count of whole units, saturated at `u64::MAX`.
pub open spec fn saturate(n: nat) -> u64 {
    if n > u64::MAX {
        u64::MAX
    } else {
        n as u64
    }
}

/// A decimal number read as a float and cut to whole units: an optional
/// sign, digits, and an optional fraction after a `.`, with at least one
/// digit. A negative number gives 0; a huge one saturates.
pub open spec fn decimal_floor(w: Seq<char>) -> Option<u64> {
    let neg = w.len() > 0 && w[0] == '-';
    let body = if w.len() > 0 && (w[0] == '-' || w[0] == '+') {
        w.drop_first()
    } else {
        w
    };
    let (int_part, frac_part) = match split_once(body, "."@) {
        Some(parts) => parts,
        None => (body, Seq::<char>::empty()),
    };
    if all_digits(int_part) && all_digits(frac_part) && int_part.len() + frac_part.len() > 0 {
        if neg {
            Some(0u64)
        } else {
            Some(saturate(digits_val(int_part)))
        }
    } else {
        None
    }
}

/// Seconds since boot from the contents of `/proc/uptime`: its first field,
/// cut to whole seconds.
pub open spec fn uptime_secs(input: Seq<char>) -> Option<u64> {
    if words(input).len() > 0 {
        decimal_floor(words(input)[0])
    } else {
        None
    }
}

/// Whether every character of `s` is a decimal digit.
fn all_digits_exec(s: &Vec<char>) -> (b: bool)
    ensures
        b == all_digits(s@),
{
    let mut i: usize = 0;
    while i < s.len()
        invariant
            i <= s.len(),
            forall|k: int| 0 <= k < i ==> crate::text::is_digit(#[trigger] s@[k]),
        decreases s.len() - i,
    {
        if !('0' <= s[i] && s[i] <= '9') {
            return false;
        }
        i += 1;
    }
    true
}

/// The value of a digit sequence, saturated at `u64::MAX`.
fn saturating_digits(s: &Vec<char>) -> (r: u64)
    requires
        all_digits(s@),
    ensures
        r == saturate(digits_val(s@)),
{
    let mut acc: u64 = 0;
    let mut i: usize = 0;
    while i < s.len()
        invariant
            i <= s.len(),
            all_digits(s@),
            acc == saturate(digits_val(s@.take(i as int))),
        decreases s.len() - i,
    {
        let c = s[i];
        assert(crate::text::is_digit(s@[i as int]));
        let d = (c as u32 - 48) as u64;
        let ghost prev = digits_val(s@.take(i as int));
        assert(s@.take(i + 1).drop_last() =~= s@.take(i as int));
        assert(s@.take(i + 1).last() == c);
        assert(digits_val(s@.take(i + 1)) == prev * 10 + d);
        if acc == u64::MAX {
            assert(prev >= u64::MAX);
            assert(prev * 10 + d >= u64::MAX) by (nonlinear_arith)
                requires
                    prev >= u64::MAX,
                    d >= 0,
            ;
        } else if acc > (u64::MAX - d) / 10 {
            assert(prev == acc);
            assert(prev * 10 + d > u64::MAX) by (nonlinear_arith)
                requires
                    prev > (u64::MAX - d) / 10,
                    d <= 9,
            ;
            acc = u64::MAX;
        } else {
            assert(acc * 10 + d <= u64::MAX) by (nonlinear_arith)
                requires
                    acc <= (u64::MAX - d) / 10,
                    d <= 9,
            ;
            acc = acc * 10 + d;
        }
        i += 1;
    }
    assert(s@.take(s.len() as int) =~= s@);
    acc
}

fn decimal_floor_exec(w: &Vec<char>) -> (r: Option<u64>)
    ensures
        r == decimal_floor(w@),
{
    let neg = w.len() > 0 && w[0] == '-';
    let body = if w.len() > 0 && (w[0] == '-' || w[0] == '+') {
        crate::text::slice(w, 1, w.len())
    } else {
        w.clone()
    };
    assert(w.len() > 0 && (w@[0] == '-' || w@[0] == '+') ==> body@ =~= w@.drop_first());
    let (int_part, frac_part) = match split_once_exec(&body, &chars_of(".")) {
        Some(parts) => parts,
        None => (body.clone(), Vec::new()),
    };
    assert(frac_part.len() == 0 ==> frac_part@ =~= Seq::<char>::empty());
    if all_digits_exec(&int_part) && all_digits_exec(&frac_part) && (int_part.len() > 0
        || frac_part.len() > 0) {
        if neg {
            Some(0)
        } else {
            Some(saturating_digits(&int_part))
        }
    } else {
        None
    }
}

/// Seconds since boot, given the contents of `/proc/uptime` if there are any.
pub fn uptime(input: Option<String>) -> (r: Option<u64>)
    ensures
        r == match input {
            Some(s) => uptime_secs(s@),
            None => None,
        },
{
    match input {
        Some(s) => {
            let ws = words_exec(&chars_of(s.as_str()));
            if ws.len() > 0 {
                assert(views(ws@)[0] == ws@[0]@);
                decimal_floor_exec(&ws[0])
            } else {
                None
            }
        },
        None => None,
    }
}

// ---------------------------------------------------------------------------
// CPU
// ---------------------------------------------------------------------------

/// A CPU model without trademark marks and with doubled spaces halved.
pub open spec fn clean_cpu_text(v: Seq<char>) -> Seq<char> {
    replace(replace(replace(v, "(R)"@, ""@), "(TM)"@, ""@), "  "@, " "@)
}

/// Every `(` of the text opens an `(R)` or `(TM)` mark.
pub open spec fn only_marks_open(v: Seq<char>) -> bool {
    forall|j: int|
        0 <= j < v.len() && v[j] == '(' ==> matches_at(v, "(R)"@, j) || matches_at(v, "(TM)"@, j)
}

/// The trademark marks are gone from a cleaned model name: when every `(`
/// of the raw name opens an `(R)` or `(TM)` mark, the cleaned name has no
/// `(` left, so neither mark.
pub proof fn lemma_cpu_marks_removed(v: Seq<char>)
    requires
        only_marks_open(v),
    ensures
        forall|j: int| 0 <= j < clean_cpu_text(v).len() ==> clean_cpu_text(v)[j] != '(',
        !contains(clean_cpu_text(v), "(TM)"@),
        !contains(clean_cpu_text(v), "(R)"@),
{
    reveal_strlit("(R)");
    reveal_strlit("(TM)");
    reveal_strlit("");
    reveal_strlit(" ");
    let a = replace(v, "(R)"@, ""@);
    lemma_replace_leaves_other(v, "(R)"@, "(TM)"@, ""@, '(');
    lemma_replace_removes(a, "(TM)"@, ""@, '(');
    let b = replace(a, "(TM)"@, ""@);
    lemma_replace_keeps_out(b, "  "@, " "@, '(');
    let r = clean_cpu_text(v);
    lemma_contains_absent(r, "(TM)"@, 0);
    lemma_contains_absent(r, "(R)"@, 0);
}

/// A model name with no `(` and no two spaces in a row is shown as it is.
pub proof fn lemma_clean_cpu_keeps_plain(v: Seq<char>)
    requires
        forall|j: int| 0 <= j < v.len() ==> v[j] != '(',
        !contains(v, "  "@),
    ensures
        clean_cpu_text(v) == v,
{
    reveal_strlit("(R)");
    reveal_strlit("(TM)");
    reveal_strlit("  ");
    lemma_contains_absent(v, "(R)"@, 0);
    lemma_contains_absent(v, "(TM)"@, 0);
    assert(replace(v, "(R)"@, ""@) == v);
    assert(replace(v, "(TM)"@, ""@) == v);
}

/// The model named by the first `model name … : value` line.
pub open spec fn cpu_model_of(ls: Seq<Seq<char>>) -> Option<Seq<char>>
    decreases ls.len(),
{
    if ls.len() == 0 {
        None
    } else {
        match strip_prefix(ls[0], "model name"@) {
            Some(rest) => match split_once(rest, ":"@) {
                Some(kv) => Some(clean_cpu_text(trim(kv.1))),
                None => cpu_model_of(ls.drop_first()),
            },
            None => cpu_model_of(ls.drop_first()),
        }
    }
}

/// The raw model name: the text after the `:` of the first
/// `model name … : value` line, trimmed.
pub open spec fn cpu_model_name(ls: Seq<Seq<char>>) -> Option<Seq<char>>
    decreases ls.len(),
{
    if ls.len() == 0 {
        None
    } else {
        match strip_prefix(ls[0], "model name"@) {
            Some(rest) => match split_once(rest, ":"@) {
                Some(kv) => Some(trim(kv.1)),
                None => cpu_model_name(ls.drop_first()),
            },
            None => cpu_model_name(ls.drop_first()),
        }
    }
}

/// The model is found exactly when a model name line is, and when every
/// `(` of the raw model name opens an `(R)` or `(TM)` mark, the model shown
/// holds no `(`, so neither mark.
pub proof fn lemma_cpu_model_has_no_marks(ls: Seq<Seq<char>>)
    requires
        match cpu_model_name(ls) {
            Some(v) => only_marks_open(v),
            None => true,
        },
    ensures
        cpu_model_of(ls) is Some <==> cpu_model_name(ls) is Some,
        match cpu_model_of(ls) {
            Some(m) => !contains(m, "(TM)"@) && !contains(m, "(R)"@) && forall|j: int|
                0 <= j < m.len() ==> m[j] != '(',
            None => true,
        },
    decreases ls.len(),
{
    if ls.len() > 0 {
        match strip_prefix(ls[0], "model name"@) {
            Some(rest) => match split_once(rest, ":"@) {
                Some(kv) => {
                    let v = trim(kv.1);
                    assert(cpu_model_name(ls) == Some(v));
                    lemma_cpu_marks_removed(v);
                },
                None => {
                    lemma_cpu_model_has_no_marks(ls.drop_first());
                },
            },
            None => {
                lemma_cpu_model_has_no_marks(ls.drop_first());
            },
        }
    }
}

fn clean_cpu(v: &Vec<char>) -> (r: Vec<char>)
    ensures
        r@ == clean_cpu_text(v@),
{
    proof {
        reveal_strlit("(R)");
        reveal_strlit("(TM)");
        reveal_strlit("  ");
    }
    let a = replace_exec(v, &chars_of("(R)"), &chars_of(""));
    let b = replace_exec(&a, &chars_of("(TM)"), &chars_of(""));
    replace_exec(&b, &chars_of("  "), &chars_of(" "))
}

/// The CPU model from the contents of `/proc/cpuinfo`.
pub fn cpu_model_from(input: &str) -> (r: Option<String>)
    ensures
        opt_view(r) == cpu_model_of(lines(input@)),
{
    let ls = lines_exec(&chars_of(input));
    let prefix = chars_of("model name");
    let colon = chars_of(":");
    let mut i: usize = 0;
    assert(views(ls@).skip(0) =~= views(ls@));
    while i < ls.len()
        invariant
            i <= ls.len(),
            prefix@ == "model name"@,
            colon@ == ":"@,
            views(ls@) == lines(input@),
            cpu_model_of(views(ls@)) == cpu_model_of(views(ls@).skip(i as int)),
        decreases ls.len() - i,
    {
        assert(views(ls@).skip(i as int)[0] == ls@[i as int]@);
        assert(views(ls@).skip(i as int).drop_first() =~= views(ls@).skip(i + 1));
        match strip_prefix_exec(&ls[i], &prefix) {
            Some(rest) => match split_once_exec(&rest, &colon) {
                Some((_, value)) => {
                    let cleaned = clean_cpu(&trim_exec(&value));
                    assert(cpu_model_of(views(ls@).skip(i as int)) == Some(cleaned@));
                    return Some(string_of(&cleaned));
                },
                None => {},
            },
            None => {},
        }
        i += 1;
    }
    None
}

/// The CPU model, given the contents of `/proc/cpuinfo` if there are any.
pub fn cpu_model(cpuinfo: Option<String>) -> (r: Option<String>)
    ensures
        opt_view(r) == match cpuinfo {
            Some(s) => cpu_model_of(lines(s@)),
            None => None,
        },
{
    match cpuinfo {
        Some(s) => cpu_model_from(s.as_str()),
        None => None,
    }
}

// ---------------------------------------------------------------------------
// Memory
// ---------------------------------------------------------------------------

/// The number at the start of a meminfo value (`"  2048 kB"` gives 2048).
pub open spec fn kib_value(v: Seq<char>) -> Option<u64> {
    if words(v).len() > 0 {
        parse_u64(words(v)[0])
    } else {
        None
    }
}

/// The value of the last line that starts with `p`, read by `kib_value`.
pub open spec fn last_field(ls: Seq<Seq<char>>, p: Seq<char>) -> Option<u64>
    decreases ls.len(),
{
    if ls.len() == 0 {
        None
    } else {
        match strip_prefix(ls.last(), p) {
            Some(rest) => kib_value(rest),
            None => last_field(ls.drop_last(), p),
        }
    }
}

/// The memory figures of a meminfo file: total and available memory must be
/// there; missing swap figures count as 0.
pub open spec fn meminfo_of(input: Seq<char>) -> Option<MemInfo> {
    let ls = lines(input);
    match (last_field(ls, "MemTotal:"@), last_field(ls, "MemAvailable:"@)) {
        (Some(t), Some(a)) => Some(
            MemInfo {
                total_kib: t,
                available_kib: a,
                swap_total_kib: match last_field(ls, "SwapTotal:"@) {
                    Some(v) => v,
                    None => 0,
                },
                swap_free_kib: match last_field(ls, "SwapFree:"@) {
                    Some(v) => v,
                    None => 0,
                },
            },
        ),
        _ => None,
    }
}

fn parse_kib(v: &Vec<char>) -> (r: Option<u64>)
    ensures
        r == kib_value(v@),
{
    let ws = words_exec(v);
    if ws.len() > 0 {
        assert(views(ws@)[0] == ws@[0]@);
        parse_u64_exec(&ws[0])
    } else {
        None
    }
}

/// The four meminfo prefixes are told apart by their first characters, so a
/// line starts with at most one of them.
proof fn lemma_meminfo_prefixes(l: Seq<char>)
    ensures
        starts_with(l, "MemTotal:"@) ==> !starts_with(l, "MemAvailable:"@) && !starts_with(
            l,
            "SwapTotal:"@,
        ) && !starts_with(l, "SwapFree:"@),
        starts_with(l, "MemAvailable:"@) ==> !starts_with(l, "SwapTotal:"@) && !starts_with(
            l,
            "SwapFree:"@,
        ),
        starts_with(l, "SwapTotal:"@) ==> !starts_with(l, "SwapFree:"@),
{
    reveal_strlit("MemTotal:");
    reveal_strlit("MemAvailable:");
    reveal_strlit("SwapTotal:");
    reveal_strlit("SwapFree:");
    if starts_with(l, "MemTotal:"@) {
        assert(l[3] == "MemTotal:"@[3]);
    }
    if starts_with(l, "MemAvailable:"@) {
        assert(l[0] == "MemAvailable:"@[0]);
    }
    if starts_with(l, "SwapTotal:"@) {
        assert(l[4] == "SwapTotal:"@[4]);
    }
}

/// Memory figures from the contents of `/proc/meminfo`. A later line for the
/// same figure replaces an earlier one.
pub fn meminfo_from(input: &str) -> (r: Option<MemInfo>)
    ensures
        r == meminfo_of(input@),
{
    let ls = lines_exec(&chars_of(input));
    let ghost vl = views(ls@);
    let p_total = chars_of("MemTotal:");
    let p_avail = chars_of("MemAvailable:");
    let p_swap_total = chars_of("SwapTotal:");
    let p_swap_free = chars_of("SwapFree:");
    let mut total: Option<u64> = None;
    let mut available: Option<u64> = None;
    let mut swap_total: Option<u64> = None;
    let mut swap_free: Option<u64> = None;
    let mut i: usize = 0;
    while i < ls.len()
        invariant
            i <= ls.len(),
            vl == views(ls@),
            p_total@ == "MemTotal:"@,
            p_avail@ == "MemAvailable:"@,
            p_swap_total@ == "SwapTotal:"@,
            p_swap_free@ == "SwapFree:"@,
            total == last_field(vl.take(i as int), "MemTotal:"@),
            available == last_field(vl.take(i as int), "MemAvailable:"@),
            swap_total == last_field(vl.take(i as int), "SwapTotal:"@),
            swap_free == last_field(vl.take(i as int), "SwapFree:"@),
        decreases ls.len() - i,
    {
        let line = &ls[i];
        let ghost l = line@;
        assert(vl.take(i + 1).last() == l);
        assert(vl.take(i + 1).drop_last() =~= vl.take(i as int));
        proof {
            lemma_meminfo_prefixes(l);
        }
        if let Some(v) = strip_prefix_exec(line, &p_total) {
            total = parse_kib(&v);
        } else if let Some(v) = strip_prefix_exec(line, &p_avail) {
            available = parse_kib(&v);
        } else if let Some(v) = strip_prefix_exec(line, &p_swap_total) {
            swap_total = parse_kib(&v);
        } else if let Some(v) = strip_prefix_exec(line, &p_swap_free) {
            swap_free = parse_kib(&v);
        }
        i += 1;
    }
    assert(vl.take(ls.len() as int) =~= vl);
    match (total, available) {
        (Some(t), Some(a)) => Some(
            MemInfo {
                total_kib: t,
                available_kib: a,
                swap_total_kib: match swap_total {
                    Some(v) => v,
                    None => 0,
                },
                swap_free_kib: match swap_free {
                    Some(v) => v,
                    None => 0,
                },
            },
        ),
        _ => None,
    }
}

/// Memory figures, given the contents of `/proc/meminfo` if there are any.
pub fn meminfo(input: Option<String>) -> (r: Option<MemInfo>)
    ensures
        r == match input {
            Some(s) => meminfo_of(s@),
            None => None,
        },
{
    match input {
        Some(s) => meminfo_from(s.as_str()),
        None => None,
    }
}

// ---------------------------------------------------------------------------
// Root filesystem
// ---------------------------------------------------------------------------

/// Device, filesystem type and options of the first mount line for `/`.
pub open spec fn root_mount(ls: Seq<Seq<char>>) -> Option<(Seq<char>, Seq<char>, Seq<char>)>
    decreases ls.len(),
{
    if ls.len() == 0 {
        None
    } else {
        let w = words(ls[0]);
        if w.len() >= 4 && w[1] == "/"@ {
            Some((w[0], w[2], w[3]))
        } else {
            root_mount(ls.drop_first())
        }
    }
}

/// The words describing the root filesystem: its type, `encrypted` for a
/// device-mapper device, and its `subvol=` and `compress=` options.
pub open spec fn rootfs_parts(device: Seq<char>, fs: Seq<char>, options: Seq<char>) -> Seq<
    Seq<char>,
> {
    let opts = split_pat(options, ","@);
    let a = seq![fs];
    let b = if starts_with(device, "/dev/mapper/"@) {
        a.push("encrypted"@)
    } else {
        a
    };
    let c = match first_stripped(opts, "subvol="@) {
        Some(x) => b.push("subvol="@ + x),
        None => b,
    };
    match first_stripped(opts, "compress="@) {
        Some(x) => c.push("compress="@ + x),
        None => c,
    }
}

/// The root filesystem line of a mounts table.
pub open spec fn rootfs_of(input: Seq<char>) -> Option<Seq<char>> {
    match root_mount(lines(input)) {
        Some(m) => Some(join(rootfs_parts(m.0, m.1, m.2), " "@)),
        None => None,
    }
}

/// The root filesystem's type and notable options from the contents of
/// `/proc/mounts`.
pub fn rootfs_from(input: &str) -> (r: Option<String>)
    ensures
        opt_view(r) == rootfs_of(input@),
{
    let ls = lines_exec(&chars_of(input));
    let slash = chars_of("/");
    let mut i: usize = 0;
    let mut found: Option<(Vec<char>, Vec<char>, Vec<char>)> = None;
    assert(views(ls@).skip(0) =~= views(ls@));
    while i < ls.len() && found.is_none()
        invariant
            i <= ls.len(),
            slash@ == "/"@,
            match found {
                Some(m) => root_mount(views(ls@)) == Some((m.0@, m.1@, m.2@)),
                None => root_mount(views(ls@)) == root_mount(views(ls@).skip(i as int)),
            },
        decreases ls.len() - i + (if found is None { 1int } else { 0int }),
    {
        assert(views(ls@).skip(i as int)[0] == ls@[i as int]@);
        assert(views(ls@).skip(i as int).drop_first() =~= views(ls@).skip(i + 1));
        let w = words_exec(&ls[i]);
        if w.len() >= 4 && eq_exec(&w[1], &slash) {
            assert(views(w@)[0] == w@[0]@ && views(w@)[1] == w@[1]@ && views(w@)[2] == w@[2]@
                && views(w@)[3] == w@[3]@);
            found = Some((w[0].clone(), w[2].clone(), w[3].clone()));
        } else {
            assert(w.len() >= 4 ==> views(w@)[1] == w@[1]@);
            i += 1;
        }
    }
    let (device, fs, options) = match found {
        Some(m) => m,
        None => {
            assert(views(ls@).skip(i as int).len() == 0);
            return None;
        },
    };
    proof {
        reveal_strlit("encrypted");
        reveal_strlit(",");
    }
    let opts = split_pat_exec(&options, &chars_of(","));
    let mut parts: Vec<Vec<char>> = Vec::new();
    parts.push(fs.clone());
    assert(views(parts@) =~= seq![fs@]);
    if starts_with_exec(&device, &chars_of("/dev/mapper/")) {
        let ghost before = views(parts@);
        parts.push(chars_of("encrypted"));
        assert(views(parts@) =~= before.push("encrypted"@));
    }
    match first_stripped_exec(&opts, &chars_of("subvol=")) {
        Some(x) => {
            let ghost before = views(parts@);
            parts.push(concat(&chars_of("subvol="), &x));
            assert(views(parts@) =~= before.push("subvol="@ + x@));
        },
        None => {},
    }
    match first_stripped_exec(&opts, &chars_of("compress=")) {
        Some(x) => {
            let ghost before = views(parts@);
            parts.push(concat(&chars_of("compress="), &x));
            assert(views(parts@) =~= before.push("compress="@ + x@));
        },
        None => {},
    }
    assert(views(parts@) == rootfs_parts(device@, fs@, options@));
    Some(string_of(&join_exec(&parts, &chars_of(" "))))
}

/// The root filesystem line, given the contents of `/proc/mounts` if there
/// are any.
pub fn rootfs(mounts: Option<String>) -> (r: Option<String>)
    ensures
        opt_view(r) == match mounts {
            Some(s) => rootfs_of(s@),
            None => None,
        },
{
    match mounts {
        Some(s) => rootfs_from(s.as_str()),
        None => None,
    }
}

} // verus!
