//! Sparkles: a few coloured glyphs scattered over the blank space under the
//! logo, placed by a hash of the row they sit beside so that a row always
//! gets the same sparkles.

use vstd::prelude::*;
use crate::text::{append, ascii_upper, ascii_upper_exec, chars_of, concat, contains, contains_exec, eq_exec, string_of};
use crate::render::ansi::{lemma_strip_painted, paint, painted, strip_ansi, Color};

verus! {

// ---------------------------------------------------------------------------
// Hashing
// ---------------------------------------------------------------------------

/// The 64-bit FNV-1a offset basis.
pub const FNV_OFFSET: u64 = 0xcbf29ce484222325;

/// The 64-bit FNV prime.
pub const FNV_PRIME: u64 = 0x100000001b3;

/// One FNV-1a step: xor in the byte, then multiply by the prime, wrapping.
pub open spec fn fnv_step(h: u64, b: u8) -> u64 {
    (((h ^ (b as u64)) as nat * FNV_PRIME as nat) % 0x1_0000_0000_0000_0000) as u64
}

/// The 64-bit FNV-1a hash of a byte sequence.
pub open spec fn fnv(bs: Seq<u8>) -> u64
    decreases bs.len(),
{
    if bs.len() == 0 {
        FNV_OFFSET
    } else {
        fnv_step(fnv(bs.drop_last()), bs.last())
    }
}

/// The 64-bit FNV-1a hash of a byte sequence.
pub fn fnv1a(bytes: &[u8]) -> (h: u64)
    ensures
        h == fnv(bytes@),
{
    let mut hash: u64 = FNV_OFFSET;
    let mut i: usize = 0;
    while i < bytes.len()
        invariant
            i <= bytes.len(),
            hash == fnv(bytes@.take(i as int)),
        decreases bytes.len() - i,
    {
        assert(bytes@.take(i + 1).drop_last() =~= bytes@.take(i as int));
        assert(bytes@.take(i + 1).last() == bytes@[i as int]);
        hash = (hash ^ (bytes[i] as u64)).wrapping_mul(FNV_PRIME);
        i += 1;
    }
    assert(bytes@.take(bytes.len() as int) =~= bytes@);
    hash
}

/// `u64::rotate_right` by `n` bits.
pub open spec fn rotr(h: u64, n: nat) -> u64 {
    let k = n % 64;
    if k == 0 {
        h
    } else {
        ((h >> (k as u64)) | (h << ((64 - k) as u64))) as u64
    }
}

/// `u64::rotate_left` by `n` bits.
pub open spec fn rotl(h: u64, n: nat) -> u64 {
    let k = n % 64;
    if k == 0 {
        h
    } else {
        ((h << (k as u64)) | (h >> ((64 - k) as u64))) as u64
    }
}

fn rotate_right(h: u64, n: u64) -> (r: u64)
    ensures
        r == rotr(h, n as nat),
{
    let k = n % 64;
    if k == 0 {
        h
    } else {
        (h >> k) | (h << (64 - k))
    }
}

fn rotate_left(h: u64, n: u64) -> (r: u64)
    ensures
        r == rotl(h, n as nat),
{
    let k = n % 64;
    if k == 0 {
        h
    } else {
        (h << k) | (h >> (64 - k))
    }
}

// ---------------------------------------------------------------------------
// Placement
// ---------------------------------------------------------------------------

/// How many sparkles a row gets, by its hash: from none up to six, fewer
/// being likelier.
pub open spec fn sparkle_count_of(hash: u64) -> nat {
    let r = hash % 24;
    if r <= 1 {
        0
    } else if r <= 6 {
        1
    } else if r <= 11 {
        2
    } else if r <= 16 {
        3
    } else if r <= 20 {
        4
    } else if r <= 22 {
        5
    } else {
        6
    }
}

fn sparkle_count(hash: u64) -> (n: u64)
    ensures
        n == sparkle_count_of(hash),
{
    let r = hash % 24;
    if r <= 1 {
        0
    } else if r <= 6 {
        1
    } else if r <= 11 {
        2
    } else if r <= 16 {
        3
    } else if r <= 20 {
        4
    } else if r <= 22 {
        5
    } else {
        6
    }
}

/// The glyph for a selector: four Unicode stars where the locale is UTF-8,
/// three ASCII marks otherwise.
pub open spec fn glyph_of(i: u64, unicode: bool) -> char {
    if unicode {
        let k = i % 4;
        if k == 0 {
            '·'
        } else if k == 1 {
            '✦'
        } else if k == 2 {
            '✧'
        } else {
            '✶'
        }
    } else {
        let k = i % 3;
        if k == 0 {
            '.'
        } else if k == 1 {
            '+'
        } else {
            '*'
        }
    }
}

fn sparkle_glyph(i: u64, unicode: bool) -> (c: char)
    ensures
        c == glyph_of(i, unicode),
{
    if unicode {
        let k = i % 4;
        if k == 0 {
            '·'
        } else if k == 1 {
            '✦'
        } else if k == 2 {
            '✧'
        } else {
            '✶'
        }
    } else {
        let k = i % 3;
        if k == 0 {
            '.'
        } else if k == 1 {
            '+'
        } else {
            '*'
        }
    }
}

/// The cells of a sparkle row after placing the first `n` sparkles: sparkle
/// `k` uses the hash rotated right by `13 k` bits, which picks its cell (the
/// rotated hash modulo the width) and its glyph (the rotated hash without
/// its low byte).
pub open spec fn cells(hash: u64, width: nat, n: nat, unicode: bool) -> Seq<char>
    decreases n,
{
    if n == 0 {
        Seq::new(width, |i: int| ' ')
    } else {
        let k = (n - 1) as nat;
        let sh = rotr(hash, k * 13);
        cells(hash, width, k, unicode).update((sh % (width as u64)) as int, glyph_of(sh >> 8u64, unicode))
    }
}

proof fn lemma_cells_len(hash: u64, width: nat, n: nat, unicode: bool)
    requires
        0 < width <= u64::MAX,
    ensures
        cells(hash, width, n, unicode).len() == width,
    decreases n,
{
    if n > 0 {
        lemma_cells_len(hash, width, (n - 1) as nat, unicode);
    }
}

/// The colour of a module's sparkles: fixed for the modules of a theme
/// group, otherwise picked by the hash.
pub open spec fn spark_color_of(module: Seq<char>, hash: u64) -> Color {
    if module == "kernel-config"@ || module == "rootfs"@ {
        Color::Green
    } else if module == "display"@ || module == "gpu"@ || module == "gtt-memory"@ {
        Color::Magenta
    } else if module == "memory"@ || module == "swap"@ || module == "disk"@ || module
        == "packages"@ {
        Color::Yellow
    } else if module == "localip"@ || module == "omarchy"@ || module == "omarchy-source"@
        || module == "omarchy-channel"@ || module == "theme"@ {
        Color::Cyan
    } else {
        let k = hash % 6;
        if k == 0 {
            Color::Cyan
        } else if k == 1 {
            Color::Blue
        } else if k == 2 {
            Color::Magenta
        } else if k == 3 {
            Color::Red
        } else if k == 4 {
            Color::Yellow
        } else {
            Color::Green
        }
    }
}

fn in_list(m: &Vec<char>, names: &Vec<&str>) -> (b: bool)
    ensures
        b == exists|i: int| 0 <= i < names@.len() && m@ == (#[trigger] names@[i])@,
{
    let mut i: usize = 0;
    while i < names.len()
        invariant
            i <= names.len(),
            forall|j: int| 0 <= j < i ==> m@ != (#[trigger] names@[j])@,
        decreases names.len() - i,
    {
        if eq_exec(m, &chars_of(names[i])) {
            return true;
        }
        i += 1;
    }
    false
}

fn spark_color(module: &Vec<char>, hash: u64) -> (c: Color)
    ensures
        c == spark_color_of(module@, hash),
{
    let green = vec!["kernel-config", "rootfs"];
    let magenta = vec!["display", "gpu", "gtt-memory"];
    let yellow = vec!["memory", "swap", "disk", "packages"];
    let cyan = vec!["localip", "omarchy", "omarchy-source", "omarchy-channel", "theme"];
    let g = in_list(module, &green);
    assert(g == (module@ == "kernel-config"@ || module@ == "rootfs"@)) by {
        if module@ == "kernel-config"@ {
            assert(module@ == green@[0]@);
        }
        if module@ == "rootfs"@ {
            assert(module@ == green@[1]@);
        }
    }
    if g {
        return Color::Green;
    }
    let mg = in_list(module, &magenta);
    assert(mg == (module@ == "display"@ || module@ == "gpu"@ || module@ == "gtt-memory"@)) by {
        if module@ == "display"@ {
            assert(module@ == magenta@[0]@);
        }
        if module@ == "gpu"@ {
            assert(module@ == magenta@[1]@);
        }
        if module@ == "gtt-memory"@ {
            assert(module@ == magenta@[2]@);
        }
    }
    if mg {
        return Color::Magenta;
    }
    let y = in_list(module, &yellow);
    assert(y == (module@ == "memory"@ || module@ == "swap"@ || module@ == "disk"@ || module@
        == "packages"@)) by {
        if module@ == "memory"@ {
            assert(module@ == yellow@[0]@);
        }
        if module@ == "swap"@ {
            assert(module@ == yellow@[1]@);
        }
        if module@ == "disk"@ {
            assert(module@ == yellow@[2]@);
        }
        if module@ == "packages"@ {
            assert(module@ == yellow@[3]@);
        }
    }
    if y {
        return Color::Yellow;
    }
    let c = in_list(module, &cyan);
    assert(c == (module@ == "localip"@ || module@ == "omarchy"@ || module@ == "omarchy-source"@
        || module@ == "omarchy-channel"@ || module@ == "theme"@)) by {
        if module@ == "localip"@ {
            assert(module@ == cyan@[0]@);
        }
        if module@ == "omarchy"@ {
            assert(module@ == cyan@[1]@);
        }
        if module@ == "omarchy-source"@ {
            assert(module@ == cyan@[2]@);
        }
        if module@ == "omarchy-channel"@ {
            assert(module@ == cyan@[3]@);
        }
        if module@ == "theme"@ {
            assert(module@ == cyan@[4]@);
        }
    }
    if c {
        return Color::Cyan;
    }
    let k = hash % 6;
    if k == 0 {
        Color::Cyan
    } else if k == 1 {
        Color::Blue
    } else if k == 2 {
        Color::Magenta
    } else if k == 3 {
        Color::Red
    } else if k == 4 {
        Color::Yellow
    } else {
        Color::Green
    }
}

/// The text of the first `n` cells: a blank stays a space; a glyph is
/// painted in its module's colour, picked with the hash rotated left by the
/// cell's index.
pub open spec fn cells_text(module: Seq<char>, cs: Seq<char>, hash: u64, n: nat) -> Seq<char>
    decreases n,
{
    if n == 0 {
        seq![]
    } else {
        let k = (n - 1) as nat;
        let cell = if cs[k as int] == ' ' {
            seq![' ']
        } else {
            painted(seq![cs[k as int]], spark_color_of(module, rotl(hash, k)))
        };
        cells_text(module, cs, hash, k) + cell
    }
}

/// The text `module\0label\0value` that a row's sparkles are hashed from.
pub open spec fn seed_of(module: Seq<char>, label: Seq<char>, value: Seq<char>) -> Seq<char> {
    module + seq!['\0'] + label + seq!['\0'] + value
}

/// The sparkles beside a row, `width` cells wide: nothing for width 0.
pub open spec fn sparkle_row_of(
    module: Seq<char>,
    label: Seq<char>,
    value: Seq<char>,
    width: nat,
    unicode: bool,
) -> Seq<char> {
    if width == 0 {
        seq![]
    } else {
        let hash = fnv(vstd::utf8::encode_utf8(seed_of(module, label, value)));
        let cs = cells(hash, width, sparkle_count_of(hash), unicode);
        cells_text(module, cs, hash, width)
    }
}

/// How many characters of a text are not spaces.
pub open spec fn glyph_count(s: Seq<char>) -> nat
    decreases s.len(),
{
    if s.len() == 0 {
        0
    } else {
        glyph_count(s.drop_last()) + if s.last() == ' ' {
            0nat
        } else {
            1nat
        }
    }
}

/// Setting one character adds at most one non-space.
proof fn lemma_glyph_count_update(s: Seq<char>, i: int, c: char)
    requires
        0 <= i < s.len(),
    ensures
        glyph_count(s.update(i, c)) <= glyph_count(s) + 1,
    decreases s.len(),
{
    let u = s.update(i, c);
    if i < s.len() - 1 {
        assert(u.drop_last() =~= s.drop_last().update(i, c));
        lemma_glyph_count_update(s.drop_last(), i, c);
    } else {
        assert(u.drop_last() =~= s.drop_last());
    }
}

/// A row of blanks has no glyph.
proof fn lemma_glyph_count_blank(width: nat)
    ensures
        glyph_count(Seq::new(width, |i: int| ' ')) == 0,
    decreases width,
{
    if width > 0 {
        lemma_glyph_count_blank((width - 1) as nat);
        assert(Seq::new(width, |i: int| ' ').drop_last() =~= Seq::new(
            (width - 1) as nat,
            |i: int| ' ',
        ));
    }
}

/// The cells after `n` sparkles: `width` of them, none an escape, and at
/// most `n` not blank.
proof fn lemma_cells_shape(hash: u64, width: nat, n: nat, unicode: bool)
    requires
        0 < width <= u64::MAX,
    ensures
        cells(hash, width, n, unicode).len() == width,
        forall|i: int| 0 <= i < width ==> #[trigger] cells(hash, width, n, unicode)[i] != '\x1b',
        glyph_count(cells(hash, width, n, unicode)) <= n,
    decreases n,
{
    if n == 0 {
        lemma_glyph_count_blank(width);
    } else {
        let k = (n - 1) as nat;
        lemma_cells_shape(hash, width, k, unicode);
        let prev = cells(hash, width, k, unicode);
        let sh = rotr(hash, k * 13);
        let pos = (sh % (width as u64)) as int;
        let g = glyph_of(sh >> 8u64, unicode);
        assert(g != '\x1b');
        lemma_glyph_count_update(prev, pos, g);
        assert forall|i: int| 0 <= i < width implies #[trigger] cells(hash, width, n, unicode)[i]
            != '\x1b' by {
            assert(cells(hash, width, n, unicode) == prev.update(pos, g));
            if i != pos {
                assert(prev.update(pos, g)[i] == prev[i]);
            }
        }
    }
}

/// With the colour codes taken out, the text of the first `n` cells is those
/// cells.
proof fn lemma_strip_cells_text(
    module: Seq<char>,
    cs: Seq<char>,
    hash: u64,
    n: nat,
    rest: Seq<char>,
)
    requires
        n <= cs.len(),
        forall|i: int| 0 <= i < cs.len() ==> #[trigger] cs[i] != '\x1b',
    ensures
        strip_ansi(cells_text(module, cs, hash, n) + rest) == cs.take(n as int) + strip_ansi(rest),
    decreases n,
{
    if n == 0 {
        assert(cells_text(module, cs, hash, n) + rest =~= rest);
        assert(cs.take(0) + strip_ansi(rest) =~= strip_ansi(rest));
    } else {
        let k = (n - 1) as nat;
        let cell = if cs[k as int] == ' ' {
            seq![' ']
        } else {
            painted(seq![cs[k as int]], spark_color_of(module, rotl(hash, k)))
        };
        assert(cells_text(module, cs, hash, n) + rest =~= cells_text(module, cs, hash, k) + (cell
            + rest));
        lemma_strip_cells_text(module, cs, hash, k, cell + rest);
        if cs[k as int] == ' ' {
            assert((cell + rest)[0] == ' ');
            assert((cell + rest).drop_first() =~= rest);
        } else {
            lemma_strip_painted(cs[k as int], spark_color_of(module, rotl(hash, k)), rest);
        }
        assert(cs.take(k as int) + (seq![cs[k as int]] + strip_ansi(rest)) =~= cs.take(n as int)
            + strip_ansi(rest));
    }
}

/// With its colour codes taken out, a sparkle row is exactly `width`
/// characters, at most six of them not spaces; for width 0 it is empty.
pub proof fn lemma_sparkle_row_shape(
    module: Seq<char>,
    label: Seq<char>,
    value: Seq<char>,
    width: nat,
    unicode: bool,
)
    requires
        width <= u64::MAX,
    ensures
        strip_ansi(sparkle_row_of(module, label, value, width, unicode)).len() == width,
        glyph_count(strip_ansi(sparkle_row_of(module, label, value, width, unicode))) <= 6,
        width == 0 ==> sparkle_row_of(module, label, value, width, unicode) == Seq::<char>::empty(),
{
    if width > 0 {
        let hash = fnv(vstd::utf8::encode_utf8(seed_of(module, label, value)));
        let n = sparkle_count_of(hash);
        let cs = cells(hash, width, n, unicode);
        lemma_cells_shape(hash, width, n, unicode);
        lemma_strip_cells_text(module, cs, hash, width, seq![]);
        assert(cells_text(module, cs, hash, width) + seq![] =~= cells_text(module, cs, hash, width));
        assert(strip_ansi(Seq::<char>::empty()) == Seq::<char>::empty());
        assert(cs.take(width as int) + Seq::<char>::empty() =~= cs);
    }
}

/// The sparkles beside a row of the given module, label and value, `width`
/// cells wide, with Unicode glyphs when `unicode` is set. Without its colour
/// codes the row is `width` characters, at most six of them sparkles.
pub fn sparkle_for_row(module: &str, label: &str, value: &str, width: usize, unicode: bool) -> (r:
    String)
    ensures
        r@ == sparkle_row_of(module@, label@, value@, width as nat, unicode),
        strip_ansi(r@).len() == width,
        glyph_count(strip_ansi(r@)) <= 6,
{
    proof {
        lemma_sparkle_row_shape(module@, label@, value@, width as nat, unicode);
    }
    if width == 0 {
        return String::new();
    }
    let m = chars_of(module);
    let mut seed = concat(&m, &vec!['\0']);
    append(&mut seed, &chars_of(label));
    seed.push('\0');
    append(&mut seed, &chars_of(value));
    let seed_text = string_of(&seed);
    assert(seed_text@ =~= seed_of(module@, label@, value@));
    let hash = fnv1a(seed_text.as_str().as_bytes());
    let count = sparkle_count(hash);
    let mut cs: Vec<char> = Vec::new();
    let mut i: usize = 0;
    while i < width
        invariant
            i <= width,
            cs@ == Seq::new(i as nat, |k: int| ' '),
        decreases width - i,
    {
        cs.push(' ');
        i += 1;
        assert(cs@ =~= Seq::new(i as nat, |k: int| ' '));
    }
    let mut index: u64 = 0;
    while index < count
        invariant
            index <= count,
            count <= 6,
            width > 0,
            cs@ == cells(hash, width as nat, index as nat, unicode),
            cs@.len() == width,
        decreases count - index,
    {
        let shifted = rotate_right(hash, index * 13);
        let position = (shifted % (width as u64)) as usize;
        let glyph = sparkle_glyph(shifted >> 8, unicode);
        cs.set(position, glyph);
        index += 1;
    }
    proof {
        lemma_cells_len(hash, width as nat, count as nat, unicode);
    }
    let mut out: Vec<char> = Vec::new();
    let mut j: usize = 0;
    while j < width
        invariant
            j <= width,
            cs@.len() == width,
            m@ == module@,
            out@ == cells_text(module@, cs@, hash, j as nat),
        decreases width - j,
    {
        let ch = cs[j];
        if ch == ' ' {
            out.push(' ');
            assert(out@ =~= cells_text(module@, cs@, hash, j as nat) + seq![' ']);
        } else {
            let color = spark_color(&m, rotate_left(hash, j as u64));
            let glyph = string_of(&vec![ch]);
            let painted_text = paint(glyph.as_str(), color);
            let ghost before = out@;
            append(&mut out, &chars_of(painted_text.as_str()));
            assert(out@ == before + painted(seq![ch], spark_color_of(module@, rotl(hash, j as nat))));
        }
        j += 1;
    }
    string_of(&out)
}

/// Whether a locale value names UTF-8, in any ASCII case.
pub open spec fn names_utf8(value: Seq<char>) -> bool {
    let upper = value.map_values(|c: char| ascii_upper(c));
    contains(upper, "UTF-8"@) || contains(upper, "UTF8"@)
}

/// Whether one of the values names UTF-8.
pub open spec fn any_utf8(values: Seq<Seq<char>>) -> bool
    decreases values.len(),
{
    values.len() > 0 && (names_utf8(values.last()) || any_utf8(values.drop_last()))
}

/// Whether sparkles may use Unicode glyphs, given the values of the
/// locale variables that are set (`LC_ALL`, `LC_CTYPE`, `LANG`): when one of
/// them names UTF-8.
pub fn unicode_sparkles(locale_values: &Vec<String>) -> (b: bool)
    ensures
        b == any_utf8(locale_values@.map_values(|s: String| s@)),
{
    let ghost vs = locale_values@.map_values(|s: String| s@);
    let mut found = false;
    let mut i: usize = 0;
    while i < locale_values.len()
        invariant
            i <= locale_values.len(),
            vs == locale_values@.map_values(|s: String| s@),
            found == any_utf8(vs.take(i as int)),
        decreases locale_values.len() - i,
    {
        assert(vs.take(i + 1).drop_last() =~= vs.take(i as int));
        assert(vs.take(i + 1).last() == locale_values@[i as int]@);
        let upper = ascii_upper_exec(&chars_of(locale_values[i].as_str()));
        if contains_exec(&upper, &chars_of("UTF-8")) || contains_exec(&upper, &chars_of("UTF8")) {
            found = true;
        }
        i += 1;
    }
    assert(vs.take(locale_values.len() as int) =~= vs);
    found
}

} // verus!
