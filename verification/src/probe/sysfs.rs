//! Readings from `/sys` and `/proc/cmdline`: host model, battery, kernel
//! runtime settings and graphics memory.
//!
//! Each function takes the contents of the files it reads, already trimmed
//! and `None` where a file is missing or blank.

use vstd::prelude::*;
use crate::text::{
    all_ascii, ascii_lower, chars_of, concat, contains, contains_exec, dec, dec_exec, ends_with,
    ends_with_exec, eq_exec, lowercase_of, opt_view, parse_u64, parse_u64_exec, parse_u8,
    parse_u8_exec, split_once, split_once_exec, starts_with, starts_with_exec, string_of,
    to_lowercase, trim_any, trim_any_exec, views, words, words_exec, mul_saturating,
};
use crate::render::text::{as_f64, as_f64_exec, pow2_exec, round_half_even, round_half_even_exec};
use vstd::arithmetic::power2::{pow2, lemma2_to64};

verus! {

/// A battery's charge in percent and its state in lower case.
#[derive(Debug, Clone, PartialEq, Eq)]
pub struct BatteryInfo {
    pub capacity: Option<u8>,
    pub status: Option<String>,
}

/// The host model from the DMI vendor and product names: the product alone
/// when it already names the vendor, both otherwise, whichever is present,
/// and the host name when neither is.
pub open spec fn host_model_of(
    vendor: Option<Seq<char>>,
    product: Option<Seq<char>>,
    hostname: Option<Seq<char>>,
) -> Option<Seq<char>> {
    match (vendor, product) {
        (Some(v), Some(p)) => if contains(p, v) {
            Some(p)
        } else {
            Some(v + " "@ + p)
        },
        (None, Some(p)) => Some(p),
        (Some(v), None) => Some(v),
        (None, None) => hostname,
    }
}

/// The host model, given the DMI `sys_vendor` and `product_name` and the
/// host name.
pub fn host_model(vendor: Option<String>, product: Option<String>, hostname: Option<String>) -> (r:
    Option<String>)
    ensures
        opt_view(r) == host_model_of(opt_view(vendor), opt_view(product), opt_view(hostname)),
{
    match (vendor, product) {
        (Some(v), Some(p)) => {
            let vc = chars_of(v.as_str());
            let pc = chars_of(p.as_str());
            if contains_exec(&pc, &vc) {
                Some(p)
            } else {
                let mut out = concat(&vc, &chars_of(" "));
                out = concat(&out, &pc);
                Some(string_of(&out))
            }
        },
        (None, Some(p)) => Some(p),
        (Some(v), None) => Some(v),
        (None, None) => hostname,
    }
}

/// The battery figures from its `capacity` and `status` files.
pub open spec fn battery_of(capacity: Option<Seq<char>>, status: Option<Seq<char>>) -> (
    Option<u8>,
    Option<Seq<char>>,
) {
    (
        match capacity {
            Some(c) => parse_u8(c),
            None => None,
        },
        match status {
            Some(s) => Some(lowercase_of(s)),
            None => None,
        },
    )
}

/// The battery figures, given the contents of a battery's `capacity` and
/// `status` files.
pub fn battery_info(capacity: Option<String>, status: Option<String>) -> (r: BatteryInfo)
    ensures
        (r.capacity, opt_view(r.status)) == battery_of(opt_view(capacity), opt_view(status)),
{
    let cap = match capacity {
        Some(c) => parse_u8_exec(&chars_of(c.as_str())),
        None => None,
    };
    let st = match status {
        Some(s) => Some(to_lowercase(s.as_str())),
        None => None,
    };
    BatteryInfo { capacity: cap, status: st }
}

// ---------------------------------------------------------------------------
// Kernel runtime settings
// ---------------------------------------------------------------------------

/// The first word of a sysfs choice list that is selected, i.e. written in
/// brackets, without the brackets.
pub open spec fn bracket_word(ws: Seq<Seq<char>>) -> Option<Seq<char>>
    decreases ws.len(),
{
    if ws.len() == 0 {
        None
    } else if starts_with(ws[0], "["@) && ends_with(ws[0], "]"@) {
        Some(trim_any(ws[0], seq!['[', ']']))
    } else {
        bracket_word(ws.drop_first())
    }
}

/// The selected entry of a sysfs choice list (`always [madvise] never`
/// gives `madvise`).
pub fn selected_bracket_value(input: &str) -> (r: Option<String>)
    ensures
        opt_view(r) == bracket_word(words(input@)),
{
    let ws = words_exec(&chars_of(input));
    let open = chars_of("[");
    let close = chars_of("]");
    let brackets = vec!['[', ']'];
    let mut i: usize = 0;
    assert(views(ws@).skip(0) =~= views(ws@));
    while i < ws.len()
        invariant
            i <= ws.len(),
            open@ == "["@,
            close@ == "]"@,
            brackets@ == seq!['[', ']'],
            views(ws@) == words(input@),
            bracket_word(views(ws@)) == bracket_word(views(ws@).skip(i as int)),
        decreases ws.len() - i,
    {
        assert(views(ws@).skip(i as int)[0] == ws@[i as int]@);
        assert(views(ws@).skip(i as int).drop_first() =~= views(ws@).skip(i + 1));
        if starts_with_exec(&ws[i], &open) && ends_with_exec(&ws[i], &close) {
            return Some(string_of(&trim_any_exec(&ws[i], &brackets)));
        }
        i += 1;
    }
    None
}

/// `on` for a true flag (`Y`, `y`, `1`), `off` for a false one (`N`, `n`,
/// `0`), the value itself otherwise.
pub open spec fn boolish_of(v: Seq<char>) -> Seq<char> {
    if v == "Y"@ || v == "y"@ || v == "1"@ {
        "on"@
    } else if v == "N"@ || v == "n"@ || v == "0"@ {
        "off"@
    } else {
        v
    }
}

/// A sysfs flag written as `on` or `off`.
pub fn boolish(value: &str) -> (r: String)
    ensures
        r@ == boolish_of(value@),
{
    let v = chars_of(value);
    if eq_exec(&v, &chars_of("Y")) || eq_exec(&v, &chars_of("y")) || eq_exec(&v, &chars_of("1")) {
        String::from_str("on")
    } else if eq_exec(&v, &chars_of("N")) || eq_exec(&v, &chars_of("n")) || eq_exec(
        &v,
        &chars_of("0"),
    ) {
        String::from_str("off")
    } else {
        string_of(&v)
    }
}

/// The value of the first `key=value` word of a command line.
pub open spec fn cmdline_value_of(ws: Seq<Seq<char>>, key: Seq<char>) -> Option<Seq<char>>
    decreases ws.len(),
{
    if ws.len() == 0 {
        None
    } else {
        match split_once(ws[0], "="@) {
            Some(kv) => if kv.0 == key {
                Some(kv.1)
            } else {
                cmdline_value_of(ws.drop_first(), key)
            },
            None => cmdline_value_of(ws.drop_first(), key),
        }
    }
}

/// The value given to `key` on a kernel command line.
pub fn cmdline_value(input: &str, key: &str) -> (r: Option<String>)
    ensures
        opt_view(r) == cmdline_value_of(words(input@), key@),
{
    let ws = words_exec(&chars_of(input));
    let k = chars_of(key);
    let eq = chars_of("=");
    let mut i: usize = 0;
    assert(views(ws@).skip(0) =~= views(ws@));
    while i < ws.len()
        invariant
            i <= ws.len(),
            k@ == key@,
            eq@ == "="@,
            views(ws@) == words(input@),
            cmdline_value_of(views(ws@), key@) == cmdline_value_of(views(ws@).skip(i as int), key@),
        decreases ws.len() - i,
    {
        assert(views(ws@).skip(i as int)[0] == ws@[i as int]@);
        assert(views(ws@).skip(i as int).drop_first() =~= views(ws@).skip(i + 1));
        match split_once_exec(&ws[i], &eq) {
            Some((candidate, value)) => {
                if eq_exec(&candidate, &k) {
                    return Some(string_of(&value));
                }
            },
            None => {},
        }
        i += 1;
    }
    None
}

/// The TTM page limit in whole GiB: `{:.0}` of `pages * 4096` bytes (as a
/// float) over 2^30, ties to even.
pub open spec fn ttm_gib(pages: u64) -> nat {
    let bytes: nat = if pages * 4096 > u64::MAX {
        u64::MAX as nat
    } else {
        (pages * 4096) as nat
    };
    round_half_even(as_f64(bytes), pow2(30))
}

/// The entries of the kernel settings summary, in order, for the selected
/// preemption mode, the amd-pstate status, the transparent huge page mode,
/// the zswap flag and the kernel command line.
pub open spec fn kernel_config_of(
    preempt: Option<Seq<char>>,
    pstate: Option<Seq<char>>,
    thp: Option<Seq<char>>,
    zswap: Option<Seq<char>>,
    cmdline: Option<Seq<char>>,
) -> Seq<Seq<char>> {
    let a: Seq<Seq<char>> = match preempt {
        Some(p) => match bracket_word(words(p)) {
            Some(v) => seq!["preempt "@ + v],
            None => seq![],
        },
        None => seq![],
    };
    let b = match pstate {
        Some(v) => a.push("pstate "@ + v),
        None => a,
    };
    let c = match thp {
        Some(t) => match bracket_word(words(t)) {
            Some(v) => b.push("THP "@ + v),
            None => b,
        },
        None => b,
    };
    let d = match zswap {
        Some(z) => c.push("zswap "@ + boolish_of(z)),
        None => c,
    };
    match cmdline {
        Some(cl) => {
            let e = match cmdline_value_of(words(cl), "iommu"@) {
                Some(v) => d.push("IOMMU "@ + v),
                None => d,
            };
            match cmdline_value_of(words(cl), "ttm.pages_limit"@) {
                Some(v) => match parse_u64(v) {
                    Some(pages) => e.push("TTM "@ + dec(ttm_gib(pages)) + "G"@),
                    None => e,
                },
                None => e,
            }
        },
        None => d,
    }
}

fn push_labeled(out: &mut Vec<String>, label: &str, value: &Vec<char>)
    ensures
        final(out)@.map_values(|s: String| s@) == old(out)@.map_values(|s: String| s@).push(
            label@ + value@,
        ),
{
    let ghost before = out@.map_values(|s: String| s@);
    out.push(string_of(&concat(&chars_of(label), value)));
    assert(out@.map_values(|s: String| s@) =~= before.push(label@ + value@));
}

/// The kernel settings summary, given the contents of
/// `/sys/kernel/debug/sched/preempt`, `/sys/devices/system/cpu/amd_pstate/status`,
/// `/sys/kernel/mm/transparent_hugepage/enabled`,
/// `/sys/module/zswap/parameters/enabled` and `/proc/cmdline`.
pub fn kernel_runtime_config(
    preempt: Option<String>,
    pstate: Option<String>,
    thp: Option<String>,
    zswap: Option<String>,
    cmdline: Option<String>,
) -> (r: Vec<String>)
    ensures
        r@.map_values(|s: String| s@) == kernel_config_of(
            opt_view(preempt),
            opt_view(pstate),
            opt_view(thp),
            opt_view(zswap),
            opt_view(cmdline),
        ),
{
    let mut values: Vec<String> = Vec::new();
    assert(values@.map_values(|s: String| s@) =~= Seq::<Seq<char>>::empty());
    if let Some(p) = preempt {
        if let Some(v) = selected_bracket_value(p.as_str()) {
            push_labeled(&mut values, "preempt ", &chars_of(v.as_str()));
            assert(values@.map_values(|s: String| s@) =~= seq!["preempt "@ + v@]);
        }
    }
    if let Some(v) = pstate {
        push_labeled(&mut values, "pstate ", &chars_of(v.as_str()));
    }
    if let Some(t) = thp {
        if let Some(v) = selected_bracket_value(t.as_str()) {
            push_labeled(&mut values, "THP ", &chars_of(v.as_str()));
        }
    }
    if let Some(z) = zswap {
        let b = boolish(z.as_str());
        push_labeled(&mut values, "zswap ", &chars_of(b.as_str()));
    }
    if let Some(cl) = cmdline {
        if let Some(v) = cmdline_value(cl.as_str(), "iommu") {
            push_labeled(&mut values, "IOMMU ", &chars_of(v.as_str()));
        }
        if let Some(v) = cmdline_value(cl.as_str(), "ttm.pages_limit") {
            if let Some(pages) = parse_u64_exec(&chars_of(v.as_str())) {
                let bytes = mul_saturating(pages, 4096);
                proof {
                    lemma2_to64();
                }
                let f = as_f64_exec(bytes);
                let gib = round_half_even_exec(f, pow2_exec(30));
                assert(gib == ttm_gib(pages));
                let mut text = dec_exec(gib);
                text.push('G');
                push_labeled(&mut values, "TTM ", &text);
                assert(text@ == dec(ttm_gib(pages)) + "G"@) by {
                    reveal_strlit("G");
                    assert(dec(ttm_gib(pages)).push('G') =~= dec(ttm_gib(pages)) + "G"@);
                }
                assert(("TTM "@ + text@) =~= "TTM "@ + dec(ttm_gib(pages)) + "G"@);
            }
        }
    }
    values
}

// ---------------------------------------------------------------------------
// Graphics memory
// ---------------------------------------------------------------------------

/// A DRM device entry: its name under `/sys/class/drm` and the contents of
/// its `device/vendor` and `device/mem_info_gtt_total` files.
#[derive(Debug, Clone, PartialEq, Eq)]
pub struct DrmCard {
    pub name: String,
    pub vendor: Option<String>,
    pub gtt_total: Option<String>,
}

/// The GTT size of the first AMD card (`card*` without a connector suffix,
/// vendor `0x1002`) that reports one.
pub open spec fn gtt_of(cards: Seq<(Seq<char>, Option<Seq<char>>, Option<Seq<char>>)>) -> Option<
    u64,
>
    decreases cards.len(),
{
    if cards.len() == 0 {
        None
    } else {
        let (name, vendor, total) = cards[0];
        let found = if starts_with(name, "card"@) && !contains(name, "-"@) && vendor == Some(
            "0x1002"@,
        ) {
            match total {
                Some(t) => parse_u64(t),
                None => None,
            }
        } else {
            None
        };
        match found {
            Some(v) => Some(v),
            None => gtt_of(cards.drop_first()),
        }
    }
}

/// The fields of DRM entries as plain values.
pub open spec fn card_views(v: Seq<DrmCard>) -> Seq<(Seq<char>, Option<Seq<char>>, Option<Seq<char>>)> {
    v.map_values(|c: DrmCard| (c.name@, opt_view(c.vendor), opt_view(c.gtt_total)))
}

/// The GTT memory size in bytes of the first AMD graphics card that reports
/// one, among the given DRM entries in directory order.
pub fn gtt_memory_bytes(cards: &Vec<DrmCard>) -> (r: Option<u64>)
    ensures
        r == gtt_of(card_views(cards@)),
{
    let card = chars_of("card");
    let dash = chars_of("-");
    let amd = chars_of("0x1002");
    let mut i: usize = 0;
    assert(card_views(cards@).skip(0) =~= card_views(cards@));
    while i < cards.len()
        invariant
            i <= cards.len(),
            card@ == "card"@,
            dash@ == "-"@,
            amd@ == "0x1002"@,
            gtt_of(card_views(cards@)) == gtt_of(card_views(cards@).skip(i as int)),
        decreases cards.len() - i,
    {
        let c = &cards[i];
        assert(card_views(cards@).skip(i as int)[0] == (c.name@, opt_view(c.vendor), opt_view(
            c.gtt_total,
        )));
        assert(card_views(cards@).skip(i as int).drop_first() =~= card_views(cards@).skip(i + 1));
        let name = chars_of(c.name.as_str());
        let is_amd = match &c.vendor {
            Some(v) => eq_exec(&chars_of(v.as_str()), &amd),
            None => false,
        };
        if starts_with_exec(&name, &card) && !contains_exec(&name, &dash) && is_amd {
            match &c.gtt_total {
                Some(t) => {
                    match parse_u64_exec(&chars_of(t.as_str())) {
                        Some(v) => {
                            return Some(v);
                        },
                        None => {},
                    }
                },
                None => {},
            }
        }
        i += 1;
    }
    None
}

// ---------------------------------------------------------------------------
// Battery
// ---------------------------------------------------------------------------

/// A power supply under `/sys/class/power_supply`: the contents of its
/// `type`, `capacity` and `status` files.
#[derive(Debug, Clone, PartialEq, Eq)]
pub struct PowerSupply {
    pub kind: Option<String>,
    pub capacity: Option<String>,
    pub status: Option<String>,
}

/// The first supply whose type is `Battery`.
pub open spec fn first_battery(ps: Seq<PowerSupply>) -> Option<PowerSupply>
    decreases ps.len(),
{
    if ps.len() == 0 {
        None
    } else if opt_view(ps[0].kind) == Some("Battery"@) {
        Some(ps[0])
    } else {
        first_battery(ps.drop_first())
    }
}

/// The battery's figures: those of the first power supply, in directory
/// order, whose type is `Battery`.
pub fn battery(supplies: &Vec<PowerSupply>) -> (r: Option<BatteryInfo>)
    ensures
        match first_battery(supplies@) {
            Some(p) => r matches Some(b) && (b.capacity, opt_view(b.status)) == battery_of(
                opt_view(p.capacity),
                opt_view(p.status),
            ),
            None => r is None,
        },
{
    let kind = chars_of("Battery");
    let mut i: usize = 0;
    assert(supplies@.skip(0) =~= supplies@);
    while i < supplies.len()
        invariant
            i <= supplies.len(),
            kind@ == "Battery"@,
            first_battery(supplies@) == first_battery(supplies@.skip(i as int)),
        decreases supplies.len() - i,
    {
        assert(supplies@.skip(i as int)[0] == supplies@[i as int]);
        assert(supplies@.skip(i as int).drop_first() =~= supplies@.skip(i + 1));
        let p = &supplies[i];
        let is_battery = match &p.kind {
            Some(k) => eq_exec(&chars_of(k.as_str()), &kind),
            None => false,
        };
        if is_battery {
            return Some(battery_info(p.capacity.clone(), p.status.clone()));
        }
        i += 1;
    }
    None
}

} // verus!
