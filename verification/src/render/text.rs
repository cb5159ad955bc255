//! Value formatting: sizes, durations, and width-limited values.

use vstd::prelude::*;
use crate::text::{
    append, chars_of, dec, dec_exec, digit_char, eq_exec, find_any_exec, find_any_from,
    lemma_find_any_from, replace, replace_exec, rfind, rfind_exec, slice, split_once,
    split_once_exec, string_of, strip_suffix, strip_suffix_exec, trim, trim_end_char, trim_exec,
};
use vstd::arithmetic::power2::{pow2, lemma2_to64, lemma_pow2_unfold, lemma_pow2_strictly_increases};

verus! {

// ---------------------------------------------------------------------------
// Display width (unicode-width)
// ---------------------------------------------------------------------------

/// The column width that `unicode_width` assigns to a string.
pub uninterp spec fn str_width(s: Seq<char>) -> usize;

/// The column width that `unicode_width` assigns to a character, `None` for
/// a control character.
pub uninterp spec fn char_width(c: char) -> Option<usize>;

/// Every character is printable ASCII (from space to `~`).
pub open spec fn printable_ascii(s: Seq<char>) -> bool {
    forall|i: int| 0 <= i < s.len() ==> 0x20 <= (#[trigger] s[i] as u32) < 0x7f
}

/// `UnicodeWidthStr::width`: the displayed width of `s` in columns. Its value
/// is named: it depends on Unicode tables and on ligature rules for
/// character sequences. Stated is what the crate's source shows for
/// printable ASCII: each such character adds one column and starts no
/// sequence, so such a string is as wide as it is long.
#[verifier::external_body]
pub(crate) fn text_width(s: &str) -> (w: usize)
    ensures
        w == str_width(s@),
        printable_ascii(s@) ==> w == s@.len(),
{
    unicode_width::UnicodeWidthStr::width(s)
}

/// `UnicodeWidthChar::width`: the displayed width of one character. Its
/// value is named; stated is only what the crate's source shows for ASCII and
/// C1 codes: printable ASCII is one column wide, and control characters have
/// no width.
#[verifier::external_body]
fn char_columns(c: char) -> (w: Option<usize>)
    ensures
        w == char_width(c),
        0x20 <= (c as u32) < 0x7f ==> w == Some(1usize),
        (c as u32) < 0x20 || (0x7f <= (c as u32) < 0xa0) ==> w is None,
{
    unicode_width::UnicodeWidthChar::width(c)
}

// ---------------------------------------------------------------------------
// Numbers with one decimal
// ---------------------------------------------------------------------------

/// Number of binary digits of `n`.
pub open spec fn bit_len(n: nat) -> nat
    decreases n,
{
    if n == 0 {
        0
    } else {
        1 + bit_len(n / 2)
    }
}

/// `a / d` rounded to the nearest integer, ties to the even one.
pub open spec fn round_half_even(a: nat, d: nat) -> nat {
    let q = a / d;
    let r = a % d;
    if 2 * r > d {
        q + 1
    } else if 2 * r < d {
        q
    } else if q % 2 == 0 {
        q
    } else {
        q + 1
    }
}

/// The value of `n as f64`: `n` rounded to 53 significant bits, ties to even.
pub open spec fn as_f64(n: nat) -> nat {
    if bit_len(n) <= 53 {
        n
    } else {
        let s = (bit_len(n) - 53) as nat;
        round_half_even(n, pow2(s)) * pow2(s)
    }
}

/// `n` tenths written with one decimal, as `{:.1}` prints it.
pub open spec fn one_decimal(t: nat) -> Seq<char> {
    dec(t / 10).push('.').push(digit_char(t % 10))
}

/// `format!("{:.1} GiB", v as f64 / 2^k)`: the exact quotient rounded to
/// tenths, ties to even.
pub open spec fn gib_text(v: nat, k: nat) -> Seq<char> {
    one_decimal(round_half_even(as_f64(v) * 10, pow2(k))) + " GiB"@
}

pub(crate) fn pow2_exec(n: u32) -> (r: u128)
    requires
        n < 64,
    ensures
        r == pow2(n as nat),
        r > 0,
        r < 0x1_0000_0000_0000_0000,
{
    let mut r: u128 = 1;
    let mut i: u32 = 0;
    proof {
        lemma2_to64();
    }
    while i < n
        invariant
            i <= n < 64,
            r == pow2(i as nat),
            r > 0,
            pow2(64) == 0x10000000000000000,
        decreases n - i,
    {
        proof {
            lemma_pow2_unfold((i + 1) as nat);
            lemma_pow2_strictly_increases(i as nat, 64);
        }
        r = r * 2;
        i += 1;
    }
    proof {
        lemma_pow2_strictly_increases(n as nat, 64);
    }
    r
}

fn bit_len_exec(n: u64) -> (b: u32)
    ensures
        b == bit_len(n as nat),
        b <= 64,
{
    let mut m = n;
    let mut b: u32 = 0;
    proof {
        lemma2_to64();
        lemma_bit_len_le(n as nat, 64);
    }
    while m > 0
        invariant
            bit_len(n as nat) == b + bit_len(m as nat),
            b + bit_len(m as nat) <= 64,
        decreases m,
    {
        m = m / 2;
        b += 1;
    }
    b
}

proof fn lemma_bit_len_le(n: nat, k: nat)
    requires
        n < pow2(k),
    ensures
        bit_len(n) <= k,
    decreases k,
{
    if n > 0 && k > 0 {
        lemma_pow2_unfold(k);
        lemma_bit_len_le(n / 2, (k - 1) as nat);
    } else if n > 0 {
        lemma2_to64();
    }
}

pub(crate) fn round_half_even_exec(a: u128, d: u128) -> (r: u128)
    requires
        d > 0,
        d < u128::MAX / 2,
        a < u128::MAX / 2,
    ensures
        r == round_half_even(a as nat, d as nat),
{
    let q = a / d;
    let rem = a % d;
    if 2 * rem > d {
        q + 1
    } else if 2 * rem < d {
        q
    } else if q % 2 == 0 {
        q
    } else {
        q + 1
    }
}

pub(crate) fn as_f64_exec(n: u64) -> (r: u128)
    ensures
        r == as_f64(n as nat),
        r <= n as nat + 0x8000_0000_0000_0000,
{
    let b = bit_len_exec(n);
    if b <= 53 {
        n as u128
    } else {
        let s = b - 53;
        let d = pow2_exec(s);
        proof {
            lemma2_to64();
            lemma_pow2_strictly_increases(s as nat, 63);
        }
        let q = round_half_even_exec(n as u128, d);
        assert(q * d <= n as nat + d) by (nonlinear_arith)
            requires
                q <= (n as nat) / (d as nat) + 1,
                d > 0,
        ;
        q * d
    }
}

/// `format!("{:.1} GiB", v as f64 / 2^k)`.
fn gib_exec(v: u64, k: u32) -> (r: String)
    requires
        k < 64,
    ensures
        r@ == gib_text(v as nat, k as nat),
{
    let f = as_f64_exec(v);
    let d = pow2_exec(k);
    let t = round_half_even_exec(f * 10, d);
    let mut out = dec_exec(t / 10);
    out.push('.');
    let dg = digit_of(t % 10);
    out.push(dg);
    append(&mut out, &chars_of(" GiB"));
    string_of(&out)
}

fn digit_of(d: u128) -> (c: char)
    requires
        d < 10,
    ensures
        c == digit_char(d as nat),
{
    let b: u8 = (48 + d) as u8;
    b as char
}

/// A value, or `"unknown"` when there is none.
pub fn fallback(value: Option<String>) -> (r: String)
    ensures
        r@ == match value {
            Some(v) => v@,
            None => "unknown"@,
        },
{
    match value {
        Some(v) => v,
        None => String::from_str("unknown"),
    }
}

/// An amount of KiB in GiB with one decimal (`{:.1} GiB` of `kib / 2^20`).
pub fn format_gib(kib: u64) -> (r: String)
    ensures
        r@ == gib_text(kib as nat, 20),
{
    gib_exec(kib, 20)
}

/// An amount of bytes in GiB with one decimal (`{:.1} GiB` of `bytes / 2^30`).
pub fn format_bytes(bytes: u64) -> (r: String)
    ensures
        r@ == gib_text(bytes as nat, 30),
{
    gib_exec(bytes, 30)
}

/// A duration as days, hours and minutes, leaving out leading zero units.
pub open spec fn duration_text(total: nat) -> Seq<char> {
    let days = total / 86400;
    let hours = total % 86400 / 3600;
    let minutes = total % 3600 / 60;
    if days > 0 {
        dec(days) + "d "@ + dec(hours) + "h "@ + dec(minutes) + "m"@
    } else if hours > 0 {
        dec(hours) + "h "@ + dec(minutes) + "m"@
    } else {
        dec(minutes) + "m"@
    }
}

/// The duration text accounts for the whole time, to the minute: a time of
/// `d` days, `h` hours, `m` minutes and `s` seconds (with `h`, `m` and `s`
/// below a day, an hour and a minute) shows as `dd hh mm`, as `hh mm` when
/// there are no days, and as `mm` when there are no days or hours.
pub proof fn lemma_duration_shows_every_unit(d: nat, h: nat, m: nat, s: nat)
    requires
        h < 24,
        m < 60,
        s < 60,
    ensures
        duration_text(d * 86400 + h * 3600 + m * 60 + s) == (if d > 0 {
            dec(d) + "d "@ + dec(h) + "h "@ + dec(m) + "m"@
        } else if h > 0 {
            dec(h) + "h "@ + dec(m) + "m"@
        } else {
            dec(m) + "m"@
        }),
{
    let t = d * 86400 + h * 3600 + m * 60 + s;
    let r = h * 3600 + m * 60 + s;
    assert(0 <= r < 86400);
    vstd::arithmetic::div_mod::lemma_fundamental_div_mod_converse(t as int, 86400, d as int, r as int);
    vstd::arithmetic::div_mod::lemma_fundamental_div_mod_converse(r as int, 3600, h as int, (m * 60 + s) as int);
    assert(t == (d * 24 + h) * 3600 + (m * 60 + s));
    vstd::arithmetic::div_mod::lemma_fundamental_div_mod_converse(
        t as int,
        3600,
        (d * 24 + h) as int,
        (m * 60 + s) as int,
    );
    vstd::arithmetic::div_mod::lemma_fundamental_div_mod_converse((m * 60 + s) as int, 60, m as int, s as int);
}

/// A duration in seconds as `Nd Nh Nm`, `Nh Nm` or `Nm`.
pub fn format_duration(total_seconds: u64) -> (r: String)
    ensures
        r@ == duration_text(total_seconds as nat),
{
    let days = total_seconds / 86_400;
    let hours = total_seconds % 86_400 / 3_600;
    let minutes = total_seconds % 3_600 / 60;
    let mut out: Vec<char> = Vec::new();
    if days > 0 {
        append(&mut out, &dec_exec(days as u128));
        append(&mut out, &chars_of("d "));
        append(&mut out, &dec_exec(hours as u128));
        append(&mut out, &chars_of("h "));
    } else if hours > 0 {
        append(&mut out, &dec_exec(hours as u128));
        append(&mut out, &chars_of("h "));
    }
    append(&mut out, &dec_exec(minutes as u128));
    append(&mut out, &chars_of("m"));
    string_of(&out)
}


// ---------------------------------------------------------------------------
// Width-limited values
// ---------------------------------------------------------------------------

/// The text before the first of the characters `cs` (the first piece of a
/// split on them).
pub open spec fn first_piece(s: Seq<char>, cs: Seq<char>) -> Seq<char> {
    match find_any_from(s, cs, 0) {
        Some(i) => s.take(i),
        None => s,
    }
}

/// The last `Radeon …` model named in a GPU description: from the last
/// `"Radeon "` up to the next `/` or `]`, trimmed; `None` when there is no
/// such model or it is empty.
pub open spec fn radeon_model(v: Seq<char>) -> Option<Seq<char>> {
    match rfind(v, "Radeon "@) {
        None => None,
        Some(start) => {
            let model = trim(first_piece(trim_end_char(v.skip(start), ']'), seq!['/', ']']));
            if model.len() == 0 {
                None
            } else {
                Some(model)
            }
        },
    }
}

/// A GPU description shortened to its Radeon model when it names one, after
/// dropping a `" (rev c1)"` suffix.
pub open spec fn short_gpu(v: Seq<char>) -> Seq<char> {
    let base = match strip_suffix(v, " (rev c1)"@) {
        Some(t) => t,
        None => v,
    };
    match radeon_model(base) {
        Some(m) => m,
        None => base,
    }
}

/// A CPU description with AMD's capitals and the 8060S suffix tidied.
pub open spec fn short_cpu(v: Seq<char>) -> Seq<char> {
    replace(replace(v, "AMD RYZEN"@, "AMD Ryzen"@), " w/ Radeon 8060S"@, ""@)
}

/// A host description without its parenthesised detail.
pub open spec fn short_host(v: Seq<char>) -> Seq<char> {
    match split_once(v, " ("@) {
        Some((name, _)) => name,
        None => v,
    }
}

/// The module-specific shortening applied before truncation.
pub open spec fn shortened(module: Seq<char>, v: Seq<char>) -> Seq<char> {
    if module == "gpu"@ {
        short_gpu(v)
    } else if module == "cpu"@ {
        short_cpu(v)
    } else if module == "host"@ {
        short_host(v)
    } else {
        v
    }
}

/// Columns a character takes inside a truncated value (no width counts as 0).
pub open spec fn cols(c: char) -> nat {
    match char_width(c) {
        Some(w) => w as nat,
        None => 0,
    }
}

/// How many leading characters of `v` fit in `target` columns when `used`
/// are already taken.
pub open spec fn fit_len(v: Seq<char>, used: nat, target: nat) -> nat
    decreases v.len(),
{
    if v.len() == 0 {
        0
    } else if used + cols(v[0]) > target {
        0
    } else {
        1 + fit_len(v.drop_first(), used + cols(v[0]), target)
    }
}

/// `v` if it fits in `width` columns; otherwise as many leading characters as
/// fit in `width - 3` columns followed by `"..."`, or only dots when the width
/// is 3 or less.
pub open spec fn ellipsized(v: Seq<char>, width: usize) -> Seq<char> {
    if str_width(v) <= width {
        v
    } else if width <= 3 {
        Seq::new(width as nat, |i: int| '.')
    } else {
        v.take(fit_len(v, 0, (width - 3) as nat) as int) + "..."@
    }
}

/// `ellipsized` for a printable ASCII value, where each character is one
/// column: the value if it is at most `width` long; otherwise its first
/// `width - 3` characters and `"..."`, or only dots when the width is 3 or
/// less.
pub open spec fn ascii_ellipsized(v: Seq<char>, width: usize) -> Seq<char> {
    if v.len() <= width {
        v
    } else if width <= 3 {
        Seq::new(width as nat, |i: int| '.')
    } else {
        v.take(width - 3) + "..."@
    }
}

/// A value shortened for its module and cut to `width` columns.
pub fn truncate_value(module: &str, value: &str, width: usize) -> (r: String)
    ensures
        r@ == ellipsized(shortened(module@, value@), width),
        printable_ascii(shortened(module@, value@)) ==> r@ == ascii_ellipsized(
            shortened(module@, value@),
            width,
        ),
{
    let m = chars_of(module);
    let v = chars_of(value);
    let s = if eq_exec(&m, &chars_of("gpu")) {
        shorten_gpu(&v)
    } else if eq_exec(&m, &chars_of("cpu")) {
        shorten_cpu(&v)
    } else if eq_exec(&m, &chars_of("host")) {
        shorten_host(&v)
    } else {
        v
    };
    ellipsize(&s, width)
}

fn shorten_gpu(v: &Vec<char>) -> (r: Vec<char>)
    ensures
        r@ == short_gpu(v@),
{
    let base = match strip_suffix_exec(v, &chars_of(" (rev c1)")) {
        Some(t) => t,
        None => v.clone(),
    };
    match extract_radeon_model(&base) {
        Some(m) => m,
        None => base,
    }
}

fn shorten_cpu(v: &Vec<char>) -> (r: Vec<char>)
    ensures
        r@ == short_cpu(v@),
{
    proof {
        reveal_strlit("AMD RYZEN");
        reveal_strlit(" w/ Radeon 8060S");
    }
    let a = replace_exec(v, &chars_of("AMD RYZEN"), &chars_of("AMD Ryzen"));
    replace_exec(&a, &chars_of(" w/ Radeon 8060S"), &chars_of(""))
}

fn shorten_host(v: &Vec<char>) -> (r: Vec<char>)
    ensures
        r@ == short_host(v@),
{
    match split_once_exec(v, &chars_of(" (")) {
        Some((name, _)) => name,
        None => v.clone(),
    }
}

fn extract_radeon_model(v: &Vec<char>) -> (r: Option<Vec<char>>)
    ensures
        match r {
            Some(m) => radeon_model(v@) == Some(m@),
            None => radeon_model(v@) is None,
        },
{
    let start = match rfind_exec(v, &chars_of("Radeon ")) {
        Some(i) => i,
        None => return None,
    };
    proof {
        crate::text::lemma_rfind(v@, "Radeon "@);
    }
    let rest = slice(v, start, v.len());
    assert(rest@ =~= v@.skip(start as int));
    let mut end = rest.len();
    assert(rest@.take(end as int) =~= rest@);
    while end > 0 && rest[end - 1] == ']'
        invariant
            end <= rest.len(),
            trim_end_char(rest@, ']') == trim_end_char(rest@.take(end as int), ']'),
        decreases end,
    {
        assert(rest@.take(end as int).drop_last() =~= rest@.take(end - 1));
        end -= 1;
    }
    let trimmed = slice(&rest, 0, end);
    assert(trimmed@ =~= rest@.take(end as int));
    let seps = vec!['/', ']'];
    proof {
        lemma_find_any_from(trimmed@, seps@, 0);
    }
    let head = match find_any_exec(&trimmed, &seps, 0) {
        Some(i) => slice(&trimmed, 0, i),
        None => trimmed.clone(),
    };
    assert(head@ =~= first_piece(trimmed@, seq!['/', ']']));
    let model = trim_exec(&head);
    if model.len() == 0 {
        None
    } else {
        Some(model)
    }
}

/// `value` cut to `width` columns (see `ellipsized`).
fn ellipsize(value: &Vec<char>, width: usize) -> (r: String)
    ensures
        r@ == ellipsized(value@, width),
        printable_ascii(value@) ==> r@ == ascii_ellipsized(value@, width),
{
    let s = string_of(value);
    if text_width(s.as_str()) <= width {
        return s;
    }
    if width <= 3 {
        let mut dots: Vec<char> = Vec::new();
        let mut i: usize = 0;
        while i < width
            invariant
                i <= width,
                dots@ == Seq::new(i as nat, |k: int| '.'),
            decreases width - i,
        {
            dots.push('.');
            i += 1;
            assert(dots@ =~= Seq::new(i as nat, |k: int| '.'));
        }
        return string_of(&dots);
    }
    let target = width - 3;
    let mut used: usize = 0;
    let mut i: usize = 0;
    let mut stop = false;
    assert(value@.skip(0) =~= value@);
    while i < value.len() && !stop
        invariant
            i <= value.len(),
            used <= target,
            fit_len(value@, 0, target as nat) == i + fit_len(
                value@.skip(i as int),
                used as nat,
                target as nat,
            ),
            stop ==> fit_len(value@.skip(i as int), used as nat, target as nat) == 0,
            printable_ascii(value@) ==> used == i,
            printable_ascii(value@) && stop ==> used == target,
        decreases value.len() - i + (if stop { 0int } else { 1int }),
    {
        let w = match char_columns(value[i]) {
            Some(x) => x,
            None => 0,
        };
        assert(printable_ascii(value@) ==> 0x20 <= (value@[i as int] as u32) < 0x7f);
        assert(value@.skip(i as int)[0] == value@[i as int]);
        if w > target - used {
            stop = true;
        } else {
            assert(value@.skip(i as int).drop_first() =~= value@.skip(i + 1));
            used = used + w;
            i += 1;
        }
    }
    if i == value.len() {
        assert(value@.skip(i as int).len() == 0);
    }
    let mut out = slice(value, 0, i);
    assert(out@ =~= value@.take(i as int));
    append(&mut out, &chars_of("..."));
    string_of(&out)
}

} // verus!
