//! The rendered fetch: the logo on the left, sparkles below it, and the
//! labelled, highlighted and width-limited values on the right.

use vstd::prelude::*;
use crate::render::ansi::{dim, dimmed, paint, painted, style_text, styled, Color};
use crate::render::document::{label_width_of, row_view, row_views, RenderDocument, RenderRow, RowView};
use crate::render::sparkle::{sparkle_for_row, sparkle_row_of};
use crate::render::text::{ellipsized, shortened, str_width, text_width, truncate_value};
use crate::text::{
    append, chars_of, concat, eq_exec, join, join_exec, lines, lines_exec, replace, replace_exec,
    split_once, split_once_exec, string_of, views, words, words_exec, opt_view, parse_u64,
    parse_u64_exec,
};

verus! {

// ---------------------------------------------------------------------------
// Highlighting
// ---------------------------------------------------------------------------

/// `used / total` with the used amount in yellow and the total dimmed.
pub open spec fn usage_highlight(v: Seq<char>) -> Seq<char> {
    match split_once(v, " / "@) {
        Some(p) => painted(p.0, Color::Yellow) + " / "@ + dimmed(p.1),
        None => v,
    }
}

/// Root-line words: the filesystem type in cyan, `encrypted` in green.
pub open spec fn root_highlights(ws: Seq<Seq<char>>) -> Seq<Seq<char>> {
    Seq::new(
        ws.len(),
        |i: int|
            if i == 0 {
                painted(ws[i], Color::Cyan)
            } else if ws[i] == "encrypted"@ {
                painted(ws[i], Color::Green)
            } else {
                ws[i]
            },
    )
}

/// A value coloured for its module; `unknown` is dimmed everywhere.
pub open spec fn highlighted(name: Seq<char>, value: Seq<char>) -> Seq<char> {
    if value == "unknown"@ {
        dimmed(value)
    } else if name == "omarchy"@ || name == "omarchy-source"@ || name == "omarchy-channel"@ || name
        == "theme"@ || name == "localip"@ {
        painted(value, Color::Cyan)
    } else if name == "kernel-config"@ {
        match split_once(value, " "@) {
            Some(p) => painted(p.0, Color::Cyan) + " "@ + painted(p.1, Color::Green),
            None => painted(value, Color::Green),
        }
    } else if name == "wm"@ || name == "terminal"@ || name == "shell"@ {
        painted(value, Color::Blue)
    } else if name == "gpu"@ || name == "gtt-memory"@ || name == "display"@ {
        painted(value, Color::Magenta)
    } else if name == "memory"@ || name == "swap"@ {
        usage_highlight(value)
    } else if name == "disk"@ {
        match split_once(value, "  "@) {
            Some(p) => painted(p.0, Color::Cyan) + "  "@ + usage_highlight(p.1),
            None => value,
        }
    } else if name == "packages"@ {
        replace(
            replace(value, "Pacman"@, painted("Pacman"@, Color::Cyan)),
            "AUR"@,
            painted("AUR"@, Color::Magenta),
        )
    } else if name == "rootfs"@ {
        join(root_highlights(words(value)), " "@)
    } else {
        value
    }
}

fn paint_chars(v: &Vec<char>, c: Color) -> (r: Vec<char>)
    ensures
        r@ == painted(v@, c),
{
    chars_of(paint(string_of(v).as_str(), c).as_str())
}

fn dim_chars(v: &Vec<char>) -> (r: Vec<char>)
    ensures
        r@ == dimmed(v@),
{
    chars_of(dim(string_of(v).as_str()).as_str())
}

fn highlight_usage(v: &Vec<char>) -> (r: Vec<char>)
    ensures
        r@ == usage_highlight(v@),
{
    match split_once_exec(v, &chars_of(" / ")) {
        Some((used, total)) => {
            let mut out = paint_chars(&used, Color::Yellow);
            append(&mut out, &chars_of(" / "));
            append(&mut out, &dim_chars(&total));
            out
        },
        None => v.clone(),
    }
}

fn highlight_root(v: &Vec<char>) -> (r: Vec<char>)
    ensures
        r@ == join(root_highlights(words(v@)), " "@),
{
    let ws = words_exec(v);
    let ghost wv = views(ws@);
    let mut parts: Vec<Vec<char>> = Vec::new();
    let mut i: usize = 0;
    while i < ws.len()
        invariant
            i <= ws.len(),
            wv == views(ws@),
            views(parts@) == root_highlights(wv).take(i as int),
        decreases ws.len() - i,
    {
        let w = &ws[i];
        let part = if i == 0 {
            paint_chars(w, Color::Cyan)
        } else if eq_exec(w, &chars_of("encrypted")) {
            paint_chars(w, Color::Green)
        } else {
            w.clone()
        };
        let ghost before = views(parts@);
        parts.push(part);
        assert(views(parts@) =~= before.push(root_highlights(wv)[i as int]));
        i += 1;
        assert(root_highlights(wv).take(i as int) =~= root_highlights(wv).take(i - 1).push(
            root_highlights(wv)[i - 1],
        ));
    }
    assert(root_highlights(wv).take(ws.len() as int) =~= root_highlights(wv));
    join_exec(&parts, &chars_of(" "))
}

fn is_one_of(n: &Vec<char>, a: &str, b: &str, c: &str) -> (r: bool)
    ensures
        r == (n@ == a@ || n@ == b@ || n@ == c@),
{
    eq_exec(n, &chars_of(a)) || eq_exec(n, &chars_of(b)) || eq_exec(n, &chars_of(c))
}

/// A value coloured for its module.
pub fn highlight_value(name: &str, value: &str) -> (r: String)
    ensures
        r@ == highlighted(name@, value@),
{
    let n = chars_of(name);
    let v = chars_of(value);
    if eq_exec(&v, &chars_of("unknown")) {
        return dim(value);
    }
    let out = if is_one_of(&n, "omarchy", "omarchy-source", "omarchy-channel") || is_one_of(
        &n,
        "theme",
        "localip",
        "theme",
    ) {
        paint_chars(&v, Color::Cyan)
    } else if eq_exec(&n, &chars_of("kernel-config")) {
        match split_once_exec(&v, &chars_of(" ")) {
            Some((key, rest)) => {
                let mut out = paint_chars(&key, Color::Cyan);
                append(&mut out, &chars_of(" "));
                append(&mut out, &paint_chars(&rest, Color::Green));
                out
            },
            None => paint_chars(&v, Color::Green),
        }
    } else if is_one_of(&n, "wm", "terminal", "shell") {
        paint_chars(&v, Color::Blue)
    } else if is_one_of(&n, "gpu", "gtt-memory", "display") {
        paint_chars(&v, Color::Magenta)
    } else if is_one_of(&n, "memory", "swap", "swap") {
        highlight_usage(&v)
    } else if eq_exec(&n, &chars_of("disk")) {
        match split_once_exec(&v, &chars_of("  ")) {
            Some((mount, usage)) => {
                let mut out = paint_chars(&mount, Color::Cyan);
                append(&mut out, &chars_of("  "));
                append(&mut out, &highlight_usage(&usage));
                out
            },
            None => v.clone(),
        }
    } else if eq_exec(&n, &chars_of("packages")) {
        proof {
            reveal_strlit("Pacman");
            reveal_strlit("AUR");
        }
        let pacman = chars_of("Pacman");
        let aur = chars_of("AUR");
        let a = replace_exec(&v, &pacman, &paint_chars(&pacman, Color::Cyan));
        replace_exec(&a, &aur, &paint_chars(&aur, Color::Magenta))
    } else if eq_exec(&n, &chars_of("rootfs")) {
        highlight_root(&v)
    } else {
        v.clone()
    };
    string_of(&out)
}

// ---------------------------------------------------------------------------
// Layout
// ---------------------------------------------------------------------------

/// `n` spaces.
pub open spec fn spaces(n: nat) -> Seq<char> {
    Seq::new(n, |i: int| ' ')
}

/// `a - b`, or 0 when `b` is larger.
pub open spec fn sat_sub(a: nat, b: nat) -> nat {
    if a >= b {
        (a - b) as nat
    } else {
        0
    }
}

/// The widest logo line, in columns.
pub open spec fn logo_width_of(ls: Seq<Seq<char>>) -> nat
    decreases ls.len(),
{
    if ls.len() == 0 {
        0
    } else {
        let prev = logo_width_of(ls.drop_last());
        if str_width(ls.last()) as nat > prev {
            str_width(ls.last()) as nat
        } else {
            prev
        }
    }
}

/// The columns left for values: the terminal width minus the logo, its
/// padding, the labels and the gap after them; at least 12.
pub open spec fn value_width_of(terminal: nat, logo: nat, label: nat) -> nat {
    let w = sat_sub(sat_sub(sat_sub(sat_sub(terminal, logo), 2), label), 2);
    if w > 12 {
        w
    } else {
        12
    }
}

/// Every row fits the terminal: the logo column, its two-column gap, the
/// label column, its two-column gap and the value column together take the
/// terminal's width exactly, unless that would leave the value fewer than
/// 13 columns, in which case the value gets 12 and the row is as narrow as
/// it can be.
pub proof fn lemma_rows_fit_terminal(
    logo: Seq<char>,
    rows: Seq<RowView>,
    terminal: nat,
    unicode: bool,
)
    ensures
        ({
            let g = geometry(lines(logo), rows, terminal, unicode);
            &&& g.logo_w == logo_width_of(lines(logo))
            &&& g.label_w == label_width_of(rows) as nat
            &&& g.value_w >= 12
            &&& g.logo_w + 2 + g.label_w + 2 + 12 < terminal ==> g.logo_w + 2 + g.label_w + 2
                + g.value_w == terminal
            &&& g.logo_w + 2 + g.label_w + 2 + 12 >= terminal ==> g.value_w == 12
            &&& g.logo_w + 2 + g.label_w + 2 + g.value_w <= terminal || g.value_w == 12
        }),
{
}

/// The logo line beside row `i`: the logo starts one row down.
pub open spec fn logo_line_at(logo: Seq<Seq<char>>, i: int) -> Seq<char> {
    if 1 <= i && i - 1 < logo.len() {
        logo[i - 1]
    } else {
        seq![]
    }
}

/// The logo colour of row `i`, cycling through six colours.
pub open spec fn logo_color(i: int) -> Color {
    let k = i % 6;
    if k == 0 {
        Color::Cyan
    } else if k == 1 {
        Color::Blue
    } else if k == 2 {
        Color::Magenta
    } else if k == 3 {
        Color::Red
    } else if k == 4 {
        Color::Yellow
    } else {
        Color::Green
    }
}

/// A label padded with spaces to `width` characters.
pub open spec fn padded(label: Seq<char>, width: nat) -> Seq<char> {
    label + spaces(sat_sub(width, label.len()))
}

/// The right-hand part of a row: the dimmed label (or blanks where the
/// label is not shown), two spaces, and the highlighted value shortened and
/// cut to the value width.
pub open spec fn row_text(r: (Seq<char>, Seq<char>, Seq<char>, bool), label_w: nat, value_w: nat) -> Seq<
    char,
> {
    let label = if r.3 {
        padded(r.1, label_w)
    } else {
        spaces(label_w)
    };
    dimmed(label) + "  "@ + highlighted(r.0, ellipsized(shortened(r.0, r.2), value_w as usize))
        + "\n"@
}

/// The row at `i`, `None` past the last row.
pub open spec fn row_at(rows: Seq<RowView>, i: int) -> Option<RowView> {
    if 0 <= i < rows.len() {
        Some(rows[i])
    } else {
        None
    }
}

/// The sparkles under the logo beside row `i`: none on the rows up to the
/// one after the logo and on the last row, or beside a gap.
pub open spec fn sparkle_cell(
    i: int,
    rows: Seq<RowView>,
    logo_w: nat,
    logo_end: nat,
    height: nat,
    unicode: bool,
) -> Seq<char> {
    if i <= logo_end || i + 1 >= height {
        spaces(logo_w)
    } else {
        match row_at(rows, i) {
            Some(Some(r)) => sparkle_row_of(r.0, r.1, r.2, logo_w, unicode),
            _ => spaces(logo_w),
        }
    }
}

/// The geometry of a layout: logo lines, rows, and the widths and heights
/// computed from them.
pub struct Geometry {
    pub logo: Seq<Seq<char>>,
    pub rows: Seq<RowView>,
    pub logo_w: nat,
    pub label_w: nat,
    pub value_w: nat,
    pub logo_end: nat,
    pub height: nat,
    pub unicode: bool,
}

/// The geometry for a logo, rows, a terminal width and a glyph set.
pub open spec fn geometry(logo: Seq<Seq<char>>, rows: Seq<RowView>, terminal: nat, unicode: bool) -> Geometry {
    let logo_w = logo_width_of(logo);
    let label_w = label_width_of(rows) as nat;
    let logo_end = logo.len() + 1;
    Geometry {
        logo,
        rows,
        logo_w,
        label_w,
        value_w: value_width_of(terminal, logo_w, label_w),
        logo_end,
        height: if logo_end >= rows.len() {
            logo_end
        } else {
            rows.len()
        },
        unicode,
    }
}

/// The left part of line `i`: the logo line, coloured and padded to the
/// logo width, or below the logo the sparkles; then two spaces.
pub open spec fn left_part(g: Geometry, i: int) -> Seq<char> {
    let ll = logo_line_at(g.logo, i);
    if ll.len() == 0 {
        sparkle_cell(i, g.rows, g.logo_w, g.logo_end, g.height, g.unicode) + "  "@
    } else {
        styled(ll, logo_color(i)) + spaces(sat_sub(g.logo_w, str_width(ll) as nat)) + "  "@
    }
}

/// The right part of line `i`: the row's text, or just the line end.
pub open spec fn right_part(g: Geometry, i: int) -> Seq<char> {
    match row_at(g.rows, i) {
        Some(Some(r)) => row_text(r, g.label_w, g.value_w),
        _ => "\n"@,
    }
}

/// Whether line `i` has neither a logo line nor a row to show.
pub open spec fn blank_line(g: Geometry, i: int) -> bool {
    logo_line_at(g.logo, i).len() == 0 && !(row_at(g.rows, i) matches Some(Some(_)))
}

/// Line `i` of the layout: empty with neither a logo line nor a row,
/// otherwise its left and right parts.
pub open spec fn layout_line(g: Geometry, i: int) -> Seq<char> {
    if blank_line(g, i) {
        "\n"@
    } else {
        left_part(g, i) + right_part(g, i)
    }
}

/// The first `n` lines of the layout.
pub open spec fn layout_lines(g: Geometry, n: nat) -> Seq<char>
    decreases n,
{
    if n == 0 {
        seq![]
    } else {
        layout_lines(g, (n - 1) as nat) + layout_line(g, n - 1)
    }
}

/// The rendered fetch: an empty line, then every line of the layout.
pub open spec fn rendered_of(logo: Seq<char>, rows: Seq<RowView>, terminal: nat, unicode: bool) -> Seq<
    char,
> {
    let g = geometry(lines(logo), rows, terminal, unicode);
    "\n"@ + layout_lines(g, g.height)
}

fn push_spaces(out: &mut Vec<char>, n: usize)
    ensures
        final(out)@ == old(out)@ + spaces(n as nat),
{
    let ghost start = out@;
    let mut i: usize = 0;
    while i < n
        invariant
            i <= n,
            out@ == start + spaces(i as nat),
        decreases n - i,
    {
        out.push(' ');
        i += 1;
        assert(out@ =~= start + spaces(i as nat));
    }
}

/// Renders a document beside a logo for a terminal of the given width,
/// with Unicode sparkles when `unicode` is set.
pub fn render_document(logo: &str, document: &RenderDocument, terminal_width: usize, unicode: bool) -> (r:
    String)
    ensures
        r@ == rendered_of(logo@, row_views(document.rows@), terminal_width as nat, unicode),
{
    let logo_lines = lines_exec(&chars_of(logo));
    let ghost lv = views(logo_lines@);
    let ghost rv = row_views(document.rows@);
    let mut widths: Vec<usize> = Vec::new();
    let mut logo_width: usize = 0;
    let mut k: usize = 0;
    while k < logo_lines.len()
        invariant
            k <= logo_lines.len(),
            lv == views(logo_lines@),
            widths.len() == k,
            forall|j: int| 0 <= j < k ==> widths@[j] == str_width(#[trigger] lv[j]),
            logo_width == logo_width_of(lv.take(k as int)),
        decreases logo_lines.len() - k,
    {
        assert(lv.take(k + 1).drop_last() =~= lv.take(k as int));
        assert(lv.take(k + 1).last() == logo_lines@[k as int]@);
        let w = text_width(string_of(&logo_lines[k]).as_str());
        widths.push(w);
        if w > logo_width {
            logo_width = w;
        }
        k += 1;
    }
    assert(lv.take(logo_lines.len() as int) =~= lv);
    let label_width = document.label_width();
    let value_width_raw = terminal_width.saturating_sub(logo_width).saturating_sub(2).saturating_sub(
        label_width,
    ).saturating_sub(2);
    let value_width = if value_width_raw > 12 {
        value_width_raw
    } else {
        12
    };
    let ghost g = geometry(lv, rv, terminal_width as nat, unicode);
    assert(g.logo_w == logo_width && g.label_w == label_width && g.value_w == value_width);
    let logo_end: u128 = logo_lines.len() as u128 + 1;
    let rows_len = document.rows.len();
    let height: u128 = if logo_end >= rows_len as u128 {
        logo_end
    } else {
        rows_len as u128
    };
    assert(g.logo_end == logo_end && g.height == height);
    let mut out: Vec<char> = Vec::new();
    out.push('\n');
    assert(out@ =~= "\n"@ + layout_lines(g, 0)) by {
        reveal_strlit("\n");
    }
    let mut index: u128 = 0;
    while index < height
        invariant
            index <= height,
            g == geometry(lv, rv, terminal_width as nat, unicode),
            lv == views(logo_lines@),
            rv == row_views(document.rows@),
            g.logo_w == logo_width,
            g.label_w == label_width,
            g.value_w == value_width,
            g.logo_end == logo_end,
            g.height == height,
            rows_len == document.rows@.len(),
            widths.len() == logo_lines.len(),
            forall|j: int| 0 <= j < logo_lines.len() ==> widths@[j] == str_width(#[trigger] lv[j]),
            out@ == "\n"@ + layout_lines(g, index as nat),
        decreases height - index,
    {
        let ghost before = out@;
        append_layout_line(
            &mut out,
            &logo_lines,
            &widths,
            document,
            index,
            logo_width,
            label_width,
            value_width,
            logo_end,
            height,
            unicode,
            Ghost(g),
        );
        assert(layout_lines(g, (index + 1) as nat) == layout_lines(g, index as nat) + layout_line(
            g,
            index as int,
        ));
        index += 1;
        assert(out@ =~= "\n"@ + layout_lines(g, index as nat));
    }
    string_of(&out)
}

fn append_layout_line(
    out: &mut Vec<char>,
    logo_lines: &Vec<Vec<char>>,
    widths: &Vec<usize>,
    document: &RenderDocument,
    index: u128,
    logo_width: usize,
    label_width: usize,
    value_width: usize,
    logo_end: u128,
    height: u128,
    unicode: bool,
    Ghost(g): Ghost<Geometry>,
)
    requires
        index < height,
        g.logo == views(logo_lines@),
        g.rows == row_views(document.rows@),
        g.logo_w == logo_width,
        g.label_w == label_width,
        g.value_w == value_width,
        g.logo_end == logo_end,
        g.height == height,
        g.unicode == unicode,
        widths.len() == logo_lines.len(),
        forall|j: int| 0 <= j < logo_lines.len() ==> widths@[j] == str_width(#[trigger] g.logo[j]),
    ensures
        final(out)@ == old(out)@ + layout_line(g, index as int),
{
    let ghost ll = logo_line_at(g.logo, index as int);
    let ghost row = row_at(g.rows, index as int);
    let has_logo = index >= 1 && index - 1 < logo_lines.len() as u128;
    let empty_logo = !has_logo || logo_lines[(index - 1) as usize].len() == 0;
    let has_row = index < document.rows.len() as u128;
    let is_output = has_row && match &document.rows[index as usize] {
        RenderRow::Output { .. } => true,
        RenderRow::Gap => false,
    };
    proof {
        if has_logo {
            assert(ll == logo_lines@[index - 1]@);
        } else {
            assert(ll == Seq::<char>::empty());
        }
        if has_row {
            assert(row == Some(row_view(document.rows@[index as int])));
        } else {
            assert(row is None);
        }
    }
    assert(empty_logo == (ll.len() == 0));
    assert(is_output == (row matches Some(Some(_))));
    if empty_logo && !is_output {
        let ghost before = out@;
        out.push('\n');
        assert(out@ =~= before + layout_line(g, index as int)) by {
            reveal_strlit("\n");
        }
        return;
    }
    append_left(out, logo_lines, widths, document, index, logo_width, logo_end, height, unicode, Ghost(g));
    append_right(out, document, index, label_width, value_width, Ghost(g));
}

fn append_left(
    out: &mut Vec<char>,
    logo_lines: &Vec<Vec<char>>,
    widths: &Vec<usize>,
    document: &RenderDocument,
    index: u128,
    logo_width: usize,
    logo_end: u128,
    height: u128,
    unicode: bool,
    Ghost(g): Ghost<Geometry>,
)
    requires
        index < height,
        g.logo == views(logo_lines@),
        g.rows == row_views(document.rows@),
        g.logo_w == logo_width,
        g.logo_end == logo_end,
        g.height == height,
        g.unicode == unicode,
        widths.len() == logo_lines.len(),
        forall|j: int| 0 <= j < logo_lines.len() ==> widths@[j] == str_width(#[trigger] g.logo[j]),
        !blank_line(g, index as int),
    ensures
        final(out)@ == old(out)@ + left_part(g, index as int),
{
    let ghost ll = logo_line_at(g.logo, index as int);
    let ghost before = out@;
    let has_logo = index >= 1 && index - 1 < logo_lines.len() as u128;
    let empty_logo = !has_logo || logo_lines[(index - 1) as usize].len() == 0;
    proof {
        if has_logo {
            assert(ll == logo_lines@[index - 1]@);
        } else {
            assert(ll == Seq::<char>::empty());
        }
    }
    if empty_logo {
        let cell = sparkle_cell_exec(document, index, logo_width, logo_end, height, unicode, Ghost(g));
        assert(cell@ == sparkle_cell(index as int, g.rows, g.logo_w, g.logo_end, g.height, unicode));
        append(out, &cell);
    } else {
        let line = &logo_lines[(index - 1) as usize];
        let colored = style_text(string_of(line).as_str(), logo_color_exec(index));
        append(out, &chars_of(colored.as_str()));
        let lw = widths[(index - 1) as usize];
        assert(lw == str_width(ll));
        push_spaces(out, logo_width.saturating_sub(lw));
    }
    push_spaces(out, 2);
    assert(spaces(2) =~= "  "@) by {
        reveal_strlit("  ");
    }
    assert(out@ =~= before + left_part(g, index as int));
}

fn sparkle_cell_exec(
    document: &RenderDocument,
    index: u128,
    logo_width: usize,
    logo_end: u128,
    height: u128,
    unicode: bool,
    Ghost(g): Ghost<Geometry>,
) -> (r: Vec<char>)
    requires
        index < height,
        g.rows == row_views(document.rows@),
        g.logo_w == logo_width,
        g.logo_end == logo_end,
        g.height == height,
    ensures
        r@ == sparkle_cell(index as int, g.rows, g.logo_w, g.logo_end, g.height, unicode),
{
    if index <= logo_end || index + 1 >= height || index >= document.rows.len() as u128 {
        let mut blank: Vec<char> = Vec::new();
        push_spaces(&mut blank, logo_width);
        assert(blank@ =~= spaces(logo_width as nat));
        return blank;
    }
    let row = &document.rows[index as usize];
    assert(g.rows[index as int] == row_view(*row));
    match row {
        RenderRow::Output { output, value, .. } => {
            let text = sparkle_for_row(
                output.name,
                output.label.as_str(),
                value.as_str(),
                logo_width,
                unicode,
            );
            chars_of(text.as_str())
        },
        RenderRow::Gap => {
            let mut blank: Vec<char> = Vec::new();
            push_spaces(&mut blank, logo_width);
            assert(blank@ =~= spaces(logo_width as nat));
            blank
        },
    }
}

fn append_right(
    out: &mut Vec<char>,
    document: &RenderDocument,
    index: u128,
    label_width: usize,
    value_width: usize,
    Ghost(g): Ghost<Geometry>,
)
    requires
        g.rows == row_views(document.rows@),
        g.label_w == label_width,
        g.value_w == value_width,
    ensures
        final(out)@ == old(out)@ + right_part(g, index as int),
{
    let ghost before = out@;
    if index < document.rows.len() as u128 {
        assert(row_at(g.rows, index as int) == Some(row_view(document.rows@[index as int])));
        match &document.rows[index as usize] {
            RenderRow::Output { output, value, show_label } => {
                append_row_text(out, output.name, output.label.as_str(), value.as_str(), *show_label, label_width, value_width);
            },
            RenderRow::Gap => {
                out.push('\n');
                assert(out@ =~= before + "\n"@) by {
                    reveal_strlit("\n");
                }
            },
        }
    } else {
        out.push('\n');
        assert(out@ =~= before + "\n"@) by {
            reveal_strlit("\n");
        }
    }
}

fn append_row_text(
    out: &mut Vec<char>,
    name: &str,
    label_text: &str,
    value: &str,
    show_label: bool,
    label_width: usize,
    value_width: usize,
)
    ensures
        final(out)@ == old(out)@ + row_text(
            (name@, label_text@, value@, show_label),
            label_width as nat,
            value_width as nat,
        ),
{
    let ghost before = out@;
    let mut label: Vec<char> = Vec::new();
    if show_label {
        label = chars_of(label_text);
        let n = label.len();
        if label_width > n {
            push_spaces(&mut label, label_width - n);
        } else {
            push_spaces(&mut label, 0);
        }
        assert(label@ =~= padded(label_text@, label_width as nat));
    } else {
        push_spaces(&mut label, label_width);
        assert(label@ =~= spaces(label_width as nat));
    }
    append(out, &dim_chars(&label));
    append(out, &chars_of("  "));
    let cut = truncate_value(name, value, value_width);
    let lit = highlight_value(name, cut.as_str());
    append(out, &chars_of(lit.as_str()));
    out.push('\n');
    assert(out@ =~= before + row_text((name@, label_text@, value@, show_label), label_width as nat, value_width as nat)) by {
        reveal_strlit("\n");
    }
}

fn logo_color_exec(i: u128) -> (c: Color)
    ensures
        c == logo_color(i as int),
{
    let k = i % 6;
    if k == 0 {
        Color::Cyan
    } else if k == 1 {
        Color::Blue
    } else if k == 2 {
        Color::Magenta
    } else if k == 3 {
        Color::Red
    } else if k == 4 {
        Color::Yellow
    } else {
        Color::Green
    }
}

// ---------------------------------------------------------------------------
// Terminal width
// ---------------------------------------------------------------------------

/// The terminal width: the columns the terminal reports when it reports
/// some, else a positive `$COLUMNS`, else 100.
pub open spec fn terminal_width_of(reported: Option<u16>, columns: Option<Seq<char>>) -> nat {
    match reported {
        Some(c) if c > 0 => c as nat,
        _ => match columns {
            Some(v) => match parse_u64(v) {
                Some(n) => if 0 < n <= usize::MAX {
                    n as nat
                } else {
                    100
                },
                None => 100,
            },
            None => 100,
        },
    }
}

/// The terminal width, given the columns the terminal reports (if asked
/// successfully) and the value of `$COLUMNS`.
pub fn terminal_width(reported: Option<u16>, columns: Option<String>) -> (r: usize)
    ensures
        r == terminal_width_of(reported, opt_view(columns)),
{
    match reported {
        Some(c) => if c > 0 {
            return c as usize;
        },
        None => {},
    }
    match columns {
        Some(v) => match parse_u64_exec(&chars_of(v.as_str())) {
            Some(n) => if 0 < n && n <= usize::MAX as u64 {
                n as usize
            } else {
                100
            },
            None => 100,
        },
        None => 100,
    }
}

} // verus!
