//! The graphics card, chosen from `lspci` output: a discrete card when there
//! is one, otherwise the first graphics device.

use vstd::prelude::*;
use crate::modules::types::Module;
use crate::modules::registry::{key_name, ModuleKey};
use crate::text::{
    all_digits, ascii_lower, ascii_lower_exec, chars_of, concat, contains, contains_exec, find,
    find_any_exec, find_any_from, find_from, find_from_exec, lemma_find, lemma_find_any_from,
    lemma_find_from, lemma_find_from_skip, lines, lines_exec, opt_view, replace, replace_exec,
    slice, split_once, split_once_exec, split_pat, split_pat_exec, starts_with,
    starts_with_exec, string_of, trim, trim_exec, views,
};

verus! {

/// The graphics card.
pub struct Gpu;

impl Module for Gpu {
    fn name(&self) -> (r: &'static str)
        ensures
            r@ == key_name(ModuleKey::Gpu),
    {
        "gpu"
    }

    fn label(&self) -> (r: &'static str)
        ensures
            r@ == "GPU"@,
    {
        "GPU"
    }
}

/// The text of each double-quoted field of a line, in order; a quote left
/// open runs to the end of the line.
pub open spec fn quoted(s: Seq<char>) -> Seq<Seq<char>>
    decreases s.len(),
{
    match find(s, seq!['"']) {
        None => seq![],
        Some(i) => {
            proof {
                lemma_find(s, seq!['"']);
            }
            let after = s.skip(i + 1);
            match find(after, seq!['"']) {
                Some(j) => {
                    proof {
                        lemma_find(after, seq!['"']);
                    }
                    seq![after.take(j)] + quoted(after.skip(j + 1))
                },
                None => seq![after],
            }
        },
    }
}

/// The double-quoted fields of a line.
fn quoted_fields(line: &Vec<char>) -> (r: Vec<Vec<char>>)
    ensures
        views(r@) == quoted(line@),
{
    let q = vec!['"'];
    let mut r: Vec<Vec<char>> = Vec::new();
    let mut pos: usize = 0;
    assert(line@.skip(0) =~= line@);
    loop
        invariant
            pos <= line.len(),
            q@ == seq!['"'],
            q@.len() == 1,
            views(r@) + quoted(line@.skip(pos as int)) == quoted(line@),
        decreases line.len() - pos,
    {
        let ghost rest = line@.skip(pos as int);
        proof {
            lemma_find_from_skip(line@, q@, pos as int, 0);
        }
        match find_from_exec(line, &q, pos) {
            None => {
                assert(find(rest, q@) is None);
                assert(views(r@) + quoted(rest) =~= views(r@));
                return r;
            },
            Some(i) => {
                assert(find(rest, q@) == Some(i - pos));
                let ghost after = rest.skip(i - pos + 1);
                assert(after =~= line@.skip(i + 1));
                proof {
                    lemma_find_from_skip(line@, q@, i + 1, 0);
                }
                match find_from_exec(line, &q, i + 1) {
                    None => {
                        assert(find(after, q@) is None);
                        let field = slice(line, i + 1, line.len());
                        assert(field@ =~= after);
                        let ghost before = views(r@);
                        r.push(field);
                        assert(views(r@) =~= before.push(after));
                        assert(views(r@) =~= before + quoted(rest));
                        return r;
                    },
                    Some(j) => {
                        assert(find(after, q@) == Some(j - i - 1));
                        let field = slice(line, i + 1, j);
                        assert(field@ =~= after.take(j - i - 1));
                        assert(after.skip(j - i - 1 + 1) =~= line@.skip(j + 1));
                        let ghost before = views(r@);
                        r.push(field);
                        assert(views(r@) =~= before.push(field@));
                        pos = j + 1;
                        assert(views(r@) + quoted(line@.skip(pos as int)) =~= before + quoted(
                            rest,
                        ));
                    },
                }
            },
        }
    }
}

/// The `lspci` classes of graphics devices.
pub open spec fn is_gpu_class(c: Seq<char>) -> bool {
    c == "VGA compatible controller"@ || c == "3D controller"@ || c == "Display controller"@
}

fn is_gpu_class_exec(c: &Vec<char>) -> (b: bool)
    ensures
        b == is_gpu_class(c@),
{
    eq_vec(c, "VGA compatible controller") || eq_vec(c, "3D controller") || eq_vec(
        c,
        "Display controller",
    )
}

fn eq_vec(a: &Vec<char>, b: &str) -> (r: bool)
    ensures
        r == (a@ == b@),
{
    crate::text::eq_exec(a, &chars_of(b))
}

/// Whether a human-readable `lspci` line is about a graphics device.
pub open spec fn is_gpu_line(line: Seq<char>) -> bool {
    contains(line, "VGA compatible controller"@) || contains(line, "3D controller"@) || contains(
        line,
        "Display controller"@,
    )
}

/// A vendor name with the long corporate names shortened.
pub open spec fn clean_gpu_text(v: Seq<char>) -> Seq<char> {
    replace(
        replace(replace(v, "Advanced Micro Devices, Inc. [AMD/ATI]"@, "AMD"@), "Intel Corporation"@, "Intel"@),
        "NVIDIA Corporation"@,
        "NVIDIA"@,
    )
}

fn clean_gpu(v: &Vec<char>) -> (r: Vec<char>)
    ensures
        r@ == clean_gpu_text(v@),
{
    proof {
        reveal_strlit("Advanced Micro Devices, Inc. [AMD/ATI]");
        reveal_strlit("Intel Corporation");
        reveal_strlit("NVIDIA Corporation");
    }
    let a = replace_exec(v, &chars_of("Advanced Micro Devices, Inc. [AMD/ATI]"), &chars_of("AMD"));
    let b = replace_exec(&a, &chars_of("Intel Corporation"), &chars_of("Intel"));
    replace_exec(&b, &chars_of("NVIDIA Corporation"), &chars_of("NVIDIA"))
}

/// The class and name of a graphics device on a machine-readable (`-mm`)
/// `lspci` line: class, vendor and model are its first three quoted fields.
pub open spec fn machine_line(line: Seq<char>) -> Option<(Seq<char>, Seq<char>)> {
    let f = quoted(line);
    if f.len() >= 3 && is_gpu_class(f[0]) {
        Some((f[0], clean_gpu_text(f[1] + " "@ + f[2])))
    } else {
        None
    }
}

/// The class and name of a graphics device on a human-readable `lspci`
/// line: the name follows the first `": "`.
pub open spec fn human_line(line: Seq<char>) -> Option<(Seq<char>, Seq<char>)> {
    if !is_gpu_line(line) {
        None
    } else {
        match split_once(line, ": "@) {
            None => None,
            Some(kv) => {
                let class = if contains(line, "3D controller"@) {
                    "3D controller"@
                } else if contains(line, "VGA compatible controller"@) {
                    "VGA compatible controller"@
                } else {
                    "Display controller"@
                };
                Some((class, clean_gpu_text(kv.1)))
            },
        }
    }
}

/// The graphics device an `lspci` line describes, read as machine-readable
/// first.
pub open spec fn parse_gpu_line(line: Seq<char>) -> Option<(Seq<char>, Seq<char>)> {
    match machine_line(line) {
        Some(d) => Some(d),
        None => human_line(line),
    }
}

/// The graphics devices of `lspci` output, in order.
pub open spec fn gpu_devices(ls: Seq<Seq<char>>) -> Seq<(Seq<char>, Seq<char>)>
    decreases ls.len(),
{
    if ls.len() == 0 {
        seq![]
    } else {
        let prev = gpu_devices(ls.drop_last());
        match parse_gpu_line(ls.last()) {
            Some(d) => prev.push(d),
            None => prev,
        }
    }
}

fn parse_gpu(line: &Vec<char>) -> (r: Option<(Vec<char>, Vec<char>)>)
    ensures
        match r {
            Some(d) => parse_gpu_line(line@) == Some((d.0@, d.1@)),
            None => parse_gpu_line(line@) is None,
        },
{
    let fields = quoted_fields(line);
    if fields.len() >= 3 && is_gpu_class_exec(&fields[0]) {
        assert(views(fields@)[0] == fields@[0]@ && views(fields@)[1] == fields@[1]@
            && views(fields@)[2] == fields@[2]@);
        let name = clean_gpu(&concat(&concat(&fields[1], &chars_of(" ")), &fields[2]));
        return Some((fields[0].clone(), name));
    }
    assert(fields.len() >= 3 ==> views(fields@)[0] == fields@[0]@);
    assert(machine_line(line@) is None);
    let l = line;
    let vga = contains_exec(l, &chars_of("VGA compatible controller"));
    let three_d = contains_exec(l, &chars_of("3D controller"));
    let display = contains_exec(l, &chars_of("Display controller"));
    if !(vga || three_d || display) {
        return None;
    }
    match split_once_exec(l, &chars_of(": ")) {
        None => None,
        Some((_, value)) => {
            let class = if three_d {
                chars_of("3D controller")
            } else if vga {
                chars_of("VGA compatible controller")
            } else {
                chars_of("Display controller")
            };
            Some((class, clean_gpu(&value)))
        },
    }
}

// ---------------------------------------------------------------------------
// Discrete cards
// ---------------------------------------------------------------------------

/// The text of `s` before the first space or slash.
pub open spec fn first_token(s: Seq<char>) -> Seq<char> {
    match find_any_from(s, seq![' ', '/'], 0) {
        Some(i) => s.take(i),
        None => s,
    }
}

/// Whether a lower-cased device name is a discrete AMD card: a Radeon RX
/// with a number of three or more digits, or a Vega 56/64, or a Radeon Pro W
/// or Radeon VII.
pub open spec fn is_amd_discrete(name: Seq<char>) -> bool {
    let parts = split_pat(name, "radeon rx"@);
    if parts.len() > 1 {
        let sku = trim(parts[1]);
        if starts_with(sku, "vega 56"@) || starts_with(sku, "vega 64"@) {
            true
        } else {
            let token = first_token(sku);
            token.len() >= 3 && all_digits(token)
        }
    } else {
        contains(name, "radeon pro w"@) || contains(name, "radeon vii"@)
    }
}

/// A Radeon RX numbered with three or more digits is discrete: when the
/// text after the first `radeon rx` of the lower-cased name, trimmed, starts
/// with such a number ended by a space, a `/` or the end of the text, the
/// device counts as a discrete card whatever its class.
pub proof fn lemma_radeon_rx_number_is_discrete(
    class: Seq<char>,
    name: Seq<char>,
    number: Seq<char>,
    rest: Seq<char>,
)
    requires
        split_pat(name.map_values(|c: char| ascii_lower(c)), "radeon rx"@).len() > 1,
        trim(split_pat(name.map_values(|c: char| ascii_lower(c)), "radeon rx"@)[1]) == number
            + rest,
        number.len() >= 3,
        all_digits(number),
        rest.len() == 0 || rest[0] == ' ' || rest[0] == '/',
    ensures
        is_discrete_device(class, name),
{
    let n = name.map_values(|c: char| ascii_lower(c));
    let sku = number + rest;
    let seps = seq![' ', '/'];
    if !(starts_with(sku, "vega 56"@) || starts_with(sku, "vega 64"@)) {
        lemma_find_any_from(sku, seps, 0);
        assert forall|j: int| 0 <= j < number.len() implies !seps.contains(#[trigger] sku[j]) by {
            assert(sku[j] == number[j]);
            assert(crate::text::is_digit(number[j]));
            if seps.contains(sku[j]) {
                let k = choose|k: int| 0 <= k < seps.len() && seps[k] == sku[j];
                assert(k == 0 || k == 1);
            }
        }
        if rest.len() > 0 {
            assert(sku[number.len() as int] == rest[0]);
            if rest[0] == ' ' {
                assert(seps[0] == ' ');
            } else {
                assert(seps[1] == '/');
            }
            assert(seps.contains(sku[number.len() as int]));
            assert(find_any_from(sku, seps, 0) == Some(number.len() as int));
            assert(sku.take(number.len() as int) =~= number);
        } else {
            assert(sku =~= number);
        }
        assert(first_token(sku) == number);
    }
    assert(is_amd_discrete(n));
}

/// A Radeon RX Vega 56 or 64 is discrete, and so is a Radeon Pro W or a
/// Radeon VII when the lower-cased name has no `radeon rx`.
pub proof fn lemma_radeon_named_discrete(class: Seq<char>, name: Seq<char>)
    ensures
        ({
            let n = name.map_values(|c: char| ascii_lower(c));
            let parts = split_pat(n, "radeon rx"@);
            &&& parts.len() > 1 && (starts_with(trim(parts[1]), "vega 56"@) || starts_with(
                trim(parts[1]),
                "vega 64"@,
            )) ==> is_discrete_device(class, name)
            &&& parts.len() <= 1 && (contains(n, "radeon pro w"@) || contains(n, "radeon vii"@))
                ==> is_discrete_device(class, name)
        }),
{
}

/// Whether a lower-cased device name is a discrete Intel card.
pub open spec fn is_intel_discrete(name: Seq<char>) -> bool {
    contains(name, "arc a"@) || contains(name, "arc b"@) || contains(name, " dg2"@)
}

/// Whether a device of this class and name is a discrete card: any 3D
/// controller, an NVIDIA card other than Tegra, or a discrete AMD or Intel
/// card.
pub open spec fn is_discrete_device(class: Seq<char>, name: Seq<char>) -> bool {
    let n = name.map_values(|c: char| ascii_lower(c));
    class == "3D controller"@ || (contains(n, "nvidia"@) && !contains(n, "tegra"@))
        || is_amd_discrete(n) || is_intel_discrete(n)
}

fn all_digits_exec(s: &Vec<char>) -> (b: bool)
    ensures
        b == all_digits(s@),
{
    let mut i: usize = 0;
    while i < s.len()
        invariant
            i <= s.len(),
            forall|k: int| 0 <= k < i ==> crate::text::is_digit(#[trigger] s@[k]),
        decreases s.len() - i,
    {
        if !('0' <= s[i] && s[i] <= '9') {
            return false;
        }
        i += 1;
    }
    true
}

fn is_amd_discrete_name(name: &Vec<char>) -> (b: bool)
    ensures
        b == is_amd_discrete(name@),
{
    proof {
        reveal_strlit("radeon rx");
    }
    let parts = split_pat_exec(name, &chars_of("radeon rx"));
    if parts.len() > 1 {
        assert(views(parts@)[1] == parts@[1]@);
        let sku = trim_exec(&parts[1]);
        if starts_with_exec(&sku, &chars_of("vega 56")) || starts_with_exec(
            &sku,
            &chars_of("vega 64"),
        ) {
            return true;
        }
        let seps = vec![' ', '/'];
        assert(seps@ == seq![' ', '/']);
        proof {
            lemma_find_any_from(sku@, seps@, 0);
        }
        let token = match find_any_exec(&sku, &seps, 0) {
            Some(i) => slice(&sku, 0, i),
            None => sku.clone(),
        };
        assert(token@ =~= first_token(sku@));
        token.len() >= 3 && all_digits_exec(&token)
    } else {
        contains_exec(name, &chars_of("radeon pro w")) || contains_exec(
            name,
            &chars_of("radeon vii"),
        )
    }
}

fn is_discrete(class: &Vec<char>, name: &Vec<char>) -> (b: bool)
    ensures
        b == is_discrete_device(class@, name@),
{
    if eq_vec(class, "3D controller") {
        return true;
    }
    let n = ascii_lower_exec(name);
    if contains_exec(&n, &chars_of("nvidia")) && !contains_exec(&n, &chars_of("tegra")) {
        return true;
    }
    is_amd_discrete_name(&n) || contains_exec(&n, &chars_of("arc a")) || contains_exec(
        &n,
        &chars_of("arc b"),
    ) || contains_exec(&n, &chars_of(" dg2"))
}

/// The first device that is discrete, if any.
pub open spec fn first_discrete(ds: Seq<(Seq<char>, Seq<char>)>) -> Option<Seq<char>>
    decreases ds.len(),
{
    if ds.len() == 0 {
        None
    } else if is_discrete_device(ds[0].0, ds[0].1) {
        Some(ds[0].1)
    } else {
        first_discrete(ds.drop_first())
    }
}

/// The graphics card named in `lspci` output: the first discrete device,
/// otherwise the first graphics device.
pub open spec fn gpu_of(input: Seq<char>) -> Option<Seq<char>> {
    let ds = gpu_devices(lines(input));
    match first_discrete(ds) {
        Some(n) => Some(n),
        None => if ds.len() > 0 {
            Some(ds[0].1)
        } else {
            None
        },
    }
}

/// The graphics card named in `lspci` or `lspci -mm` output.
pub fn gpu_from_lspci(input: &str) -> (r: Option<String>)
    ensures
        opt_view(r) == gpu_of(input@),
{
    let ls = lines_exec(&chars_of(input));
    let ghost vl = views(ls@);
    let mut classes: Vec<Vec<char>> = Vec::new();
    let mut names: Vec<Vec<char>> = Vec::new();
    let mut i: usize = 0;
    while i < ls.len()
        invariant
            i <= ls.len(),
            vl == views(ls@),
            vl == lines(input@),
            classes.len() == names.len(),
            gpu_devices(vl.take(i as int)) == views(classes@).zip_with(views(names@)),
        decreases ls.len() - i,
    {
        assert(vl.take(i + 1).last() == ls@[i as int]@);
        assert(vl.take(i + 1).drop_last() =~= vl.take(i as int));
        match parse_gpu(&ls[i]) {
            Some((c, n)) => {
                let ghost bc = views(classes@);
                let ghost bn = views(names@);
                classes.push(c);
                names.push(n);
                assert(views(classes@) =~= bc.push(c@));
                assert(views(names@) =~= bn.push(n@));
                assert(views(classes@).zip_with(views(names@)) =~= bc.zip_with(bn).push((c@, n@)));
            },
            None => {},
        }
        i += 1;
    }
    assert(vl.take(ls.len() as int) =~= vl);
    let ghost ds = views(classes@).zip_with(views(names@));
    let mut j: usize = 0;
    assert(ds.skip(0) =~= ds);
    while j < classes.len()
        invariant
            j <= classes.len(),
            classes.len() == names.len(),
            ds == views(classes@).zip_with(views(names@)),
            ds == gpu_devices(lines(input@)),
            first_discrete(ds) == first_discrete(ds.skip(j as int)),
        decreases classes.len() - j,
    {
        assert(ds.skip(j as int)[0] == (classes@[j as int]@, names@[j as int]@));
        assert(ds.skip(j as int).drop_first() =~= ds.skip(j + 1));
        if is_discrete(&classes[j], &names[j]) {
            return Some(string_of(&names[j]));
        }
        j += 1;
    }
    assert(ds.skip(j as int).len() == 0);
    if names.len() > 0 {
        assert(ds[0] == (classes@[0]@, names@[0]@));
        Some(string_of(&names[0]))
    } else {
        None
    }
}

/// A discrete card is preferred: when any graphics device is discrete, the
/// card shown is the first discrete one; otherwise it is the first device.
pub proof fn lemma_discrete_preferred(ds: Seq<(Seq<char>, Seq<char>)>)
    ensures
        (exists|i: int| 0 <= i < ds.len() && is_discrete_device(ds[i].0, ds[i].1)) ==> exists|i: int|
            0 <= i < ds.len() && is_discrete_device(ds[i].0, ds[i].1) && first_discrete(ds) == Some(ds[i].1)
                && forall|j: int| 0 <= j < i ==> !is_discrete_device(#[trigger] ds[j].0, ds[j].1),
        (forall|i: int| 0 <= i < ds.len() ==> !is_discrete_device(#[trigger] ds[i].0, ds[i].1))
            ==> first_discrete(ds) is None,
    decreases ds.len(),
{
    if ds.len() > 0 {
        lemma_discrete_preferred(ds.drop_first());
        let rest = ds.drop_first();
        if !is_discrete_device(ds[0].0, ds[0].1) {
            if exists|i: int| 0 <= i < ds.len() && is_discrete_device(ds[i].0, ds[i].1) {
                let i = choose|i: int| 0 <= i < ds.len() && is_discrete_device(ds[i].0, ds[i].1);
                assert(rest[i - 1] == ds[i]);
                let k = choose|k: int|
                    0 <= k < rest.len() && is_discrete_device(rest[k].0, rest[k].1) && first_discrete(rest)
                        == Some(rest[k].1) && forall|j: int|
                        0 <= j < k ==> !is_discrete_device(#[trigger] rest[j].0, rest[j].1);
                assert(ds[k + 1] == rest[k]);
                assert forall|j: int| 0 <= j < k + 1 implies !is_discrete_device(#[trigger] ds[j].0, ds[j].1) by {
                    if j > 0 {
                        assert(ds[j] == rest[j - 1]);
                    }
                }
            }
            assert forall|i: int| 0 <= i < rest.len() && (forall|i: int| 0 <= i < ds.len() ==> !is_discrete_device(#[trigger] ds[i].0, ds[i].1)) implies !is_discrete_device(#[trigger] rest[i].0, rest[i].1) by {
                assert(rest[i] == ds[i + 1]);
            }
        }
    }
}

} // verus!
