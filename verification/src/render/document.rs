//! The rows of a fetch: one per line of each module's value, with a gap
//! before each group of modules in the default layout.

use vstd::prelude::*;
use crate::modules::types::ModuleOutput;
use crate::text::{chars_of, eq_exec, lines, lines_exec, string_of, views};

verus! {

/// The rows to render.
pub struct RenderDocument<'a> {
    pub rows: Vec<RenderRow<'a>>,
}

/// A row: one line of a module's value, carrying the label on the value's
/// first line; or an empty row between groups.
pub enum RenderRow<'a> {
    Output { output: &'a ModuleOutput, value: String, show_label: bool },
    Gap,
}

/// A row as plain values: module name, label, line and whether the label is
/// shown; `None` for a gap.
pub type RowView = Option<(Seq<char>, Seq<char>, Seq<char>, bool)>;

/// A row as plain values.
pub open spec fn row_view(r: RenderRow) -> RowView {
    match r {
        RenderRow::Output { output, value, show_label } => Some(
            (output.name@, output.label@, value@, show_label),
        ),
        RenderRow::Gap => None,
    }
}

/// Rows as plain values.
pub open spec fn row_views(rows: Seq<RenderRow>) -> Seq<RowView> {
    rows.map_values(|r: RenderRow| row_view(r))
}

/// The modules that open a group in the default layout.
pub open spec fn starts_group_of(name: Seq<char>) -> bool {
    name == "theme"@ || name == "wm"@ || name == "display"@ || name == "memory"@ || name
        == "packages"@
}

/// Whether a module opens a group in the default layout.
pub fn starts_group(name: &str) -> (b: bool)
    ensures
        b == starts_group_of(name@),
{
    let n = chars_of(name);
    eq_exec(&n, &chars_of("theme")) || eq_exec(&n, &chars_of("wm")) || eq_exec(
        &n,
        &chars_of("display"),
    ) || eq_exec(&n, &chars_of("memory")) || eq_exec(&n, &chars_of("packages"))
}

/// The rows of one output: a row per line of its value, the label on the
/// first.
pub open spec fn output_rows(o: ModuleOutput) -> Seq<RowView> {
    Seq::new(
        lines(o.value@).len(),
        |i: int| Some((o.name@, o.label@, lines(o.value@)[i], i == 0)),
    )
}

/// The rows of a list of outputs: each output's rows in order, preceded by a
/// gap when `gaps` is set, the output opens a group, and rows came before.
pub open spec fn doc_rows(outs: Seq<ModuleOutput>, gaps: bool) -> Seq<RowView>
    decreases outs.len(),
{
    if outs.len() == 0 {
        seq![]
    } else {
        let prev = doc_rows(outs.drop_last(), gaps);
        let o = outs.last();
        let with_gap = if gaps && starts_group_of(o.name@) && prev.len() > 0 {
            prev.push(None)
        } else {
            prev
        };
        with_gap + output_rows(o)
    }
}

/// The length in bytes of a label, as `str::len` gives it.
pub open spec fn byte_len(s: Seq<char>) -> usize {
    vstd::utf8::encode_utf8(s).len() as usize
}

/// The widest shown label, in bytes; 0 without labels.
pub open spec fn label_width_of(rows: Seq<RowView>) -> usize
    decreases rows.len(),
{
    if rows.len() == 0 {
        0
    } else {
        let prev = label_width_of(rows.drop_last());
        match rows.last() {
            Some(r) => if r.3 && byte_len(r.1) > prev {
                byte_len(r.1)
            } else {
                prev
            },
            None => prev,
        }
    }
}

impl<'a> RenderDocument<'a> {
    /// The rows for a list of outputs; `show_group_gaps` puts a gap before
    /// each group in the default layout.
    pub fn from_outputs(outputs: &'a [ModuleOutput], show_group_gaps: bool) -> (r: Self)
        ensures
            row_views(r.rows@) == doc_rows(outputs@, show_group_gaps),
    {
        let mut rows: Vec<RenderRow<'a>> = Vec::new();
        let mut i: usize = 0;
        while i < outputs.len()
            invariant
                i <= outputs.len(),
                row_views(rows@) == doc_rows(outputs@.take(i as int), show_group_gaps),
            decreases outputs.len() - i,
        {
            let output = &outputs[i];
            assert(outputs@.take(i + 1).drop_last() =~= outputs@.take(i as int));
            assert(outputs@.take(i + 1).last() == *output);
            if show_group_gaps && starts_group(output.name) && rows.len() > 0 {
                let ghost before = row_views(rows@);
                rows.push(RenderRow::Gap);
                assert(row_views(rows@) =~= before.push(None));
            }
            let ghost base = row_views(rows@);
            let ls = lines_exec(&chars_of(output.value.as_str()));
            let mut j: usize = 0;
            while j < ls.len()
                invariant
                    j <= ls.len(),
                    views(ls@) == lines(output.value@),
                    row_views(rows@) == base + output_rows(*output).take(j as int),
                decreases ls.len() - j,
            {
                let ghost before = row_views(rows@);
                rows.push(RenderRow::Output { output, value: string_of(&ls[j]), show_label: j == 0 });
                assert(views(ls@)[j as int] == ls@[j as int]@);
                assert(row_views(rows@) =~= before.push(
                    Some((output.name@, output.label@, ls@[j as int]@, j == 0)),
                ));
                j += 1;
                assert(output_rows(*output).take(j as int) =~= output_rows(*output).take(j - 1).push(
                    Some((output.name@, output.label@, ls@[j - 1]@, j - 1 == 0)),
                ));
            }
            assert(output_rows(*output).take(ls.len() as int) =~= output_rows(*output));
            i += 1;
        }
        assert(outputs@.take(outputs.len() as int) =~= outputs@);
        RenderDocument { rows }
    }

    /// The width of the widest shown label, in bytes.
    pub fn label_width(&self) -> (r: usize)
        ensures
            r == label_width_of(row_views(self.rows@)),
    {
        let mut w: usize = 0;
        let mut i: usize = 0;
        let ghost rv = row_views(self.rows@);
        while i < self.rows.len()
            invariant
                i <= self.rows.len(),
                rv == row_views(self.rows@),
                w == label_width_of(rv.take(i as int)),
            decreases self.rows.len() - i,
        {
            assert(rv.take(i + 1).drop_last() =~= rv.take(i as int));
            assert(rv.take(i + 1).last() == row_view(self.rows@[i as int]));
            match &self.rows[i] {
                RenderRow::Output { output, show_label, .. } => {
                    if *show_label {
                        let n = output.label.as_str().len();
                        if n > w {
                            w = n;
                        }
                    }
                },
                RenderRow::Gap => {},
            }
            i += 1;
        }
        assert(rv.take(self.rows.len() as int) =~= rv);
        w
    }

    /// The number of rows.
    pub fn len(&self) -> (r: usize)
        ensures
            r == self.rows@.len(),
    {
        self.rows.len()
    }
}

/// The rows without the gaps.
pub open spec fn without_gaps(rows: Seq<RowView>) -> Seq<RowView>
    decreases rows.len(),
{
    if rows.len() == 0 {
        seq![]
    } else {
        let prev = without_gaps(rows.drop_last());
        match rows.last() {
            Some(r) => prev.push(Some(r)),
            None => prev,
        }
    }
}

proof fn lemma_without_gaps_append(a: Seq<RowView>, b: Seq<RowView>)
    ensures
        without_gaps(a + b) == without_gaps(a) + without_gaps(b),
    decreases b.len(),
{
    if b.len() == 0 {
        assert(a + b =~= a);
        assert(without_gaps(a) + without_gaps(b) =~= without_gaps(a));
    } else {
        lemma_without_gaps_append(a, b.drop_last());
        assert((a + b).drop_last() =~= a + b.drop_last());
        assert((a + b).last() == b.last());
        match b.last() {
            Some(r) => {
                assert(without_gaps(a) + without_gaps(b.drop_last()).push(Some(r)) =~= (without_gaps(a)
                    + without_gaps(b.drop_last())).push(Some(r)));
            },
            None => {},
        }
    }
}

proof fn lemma_output_rows_no_gaps(o: ModuleOutput)
    ensures
        without_gaps(output_rows(o)) == output_rows(o),
    decreases lines(o.value@).len(),
{
    let rs = output_rows(o);
    lemma_rows_no_gaps(rs);
}

proof fn lemma_rows_no_gaps(rs: Seq<RowView>)
    requires
        forall|i: int| 0 <= i < rs.len() ==> (#[trigger] rs[i]) is Some,
    ensures
        without_gaps(rs) == rs,
    decreases rs.len(),
{
    if rs.len() > 0 {
        lemma_rows_no_gaps(rs.drop_last());
        assert(rs.drop_last().push(rs.last()) =~= rs);
    }
}

/// Gaps are the only difference between the default and the compact
/// layout: dropping the gaps from the default rows leaves the compact rows.
pub proof fn lemma_gaps_only_difference(outs: Seq<ModuleOutput>)
    ensures
        without_gaps(doc_rows(outs, true)) == doc_rows(outs, false),
    decreases outs.len(),
{
    if outs.len() > 0 {
        lemma_gaps_only_difference(outs.drop_last());
        let o = outs.last();
        let prev_t = doc_rows(outs.drop_last(), true);
        let prev_f = doc_rows(outs.drop_last(), false);
        let with_gap = if starts_group_of(o.name@) && prev_t.len() > 0 {
            prev_t.push(None)
        } else {
            prev_t
        };
        lemma_without_gaps_append(with_gap, output_rows(o));
        lemma_without_gaps_append(prev_f, output_rows(o));
        lemma_output_rows_no_gaps(o);
        lemma_compact_has_no_gaps(outs.drop_last());
        lemma_rows_no_gaps(prev_f);
        if starts_group_of(o.name@) && prev_t.len() > 0 {
            assert(prev_t.push(None).drop_last() =~= prev_t);
        }
    }
}

/// The compact layout has no gaps.
pub proof fn lemma_compact_has_no_gaps(outs: Seq<ModuleOutput>)
    ensures
        forall|i: int| 0 <= i < doc_rows(outs, false).len() ==> (#[trigger] doc_rows(outs, false)[i]) is Some,
    decreases outs.len(),
{
    if outs.len() > 0 {
        lemma_compact_has_no_gaps(outs.drop_last());
        let prev = doc_rows(outs.drop_last(), false);
        let o = outs.last();
        assert forall|i: int| 0 <= i < doc_rows(outs, false).len() implies (#[trigger] doc_rows(
            outs,
            false,
        )[i]) is Some by {
            if i < prev.len() {
                assert(doc_rows(outs, false)[i] == prev[i]);
            } else {
                assert(doc_rows(outs, false)[i] == output_rows(o)[i - prev.len()]);
            }
        }
    }
}

/// A document never starts with a gap.
pub proof fn lemma_no_leading_gap(outs: Seq<ModuleOutput>, gaps: bool)
    ensures
        doc_rows(outs, gaps).len() > 0 ==> doc_rows(outs, gaps)[0] is Some,
    decreases outs.len(),
{
    if outs.len() > 0 {
        lemma_no_leading_gap(outs.drop_last(), gaps);
        let prev = doc_rows(outs.drop_last(), gaps);
        let o = outs.last();
        if prev.len() == 0 {
            let with_gap = if gaps && starts_group_of(o.name@) && prev.len() > 0 {
                prev.push(None)
            } else {
                prev
            };
            assert(with_gap.len() == 0);
            if output_rows(o).len() > 0 {
                assert(doc_rows(outs, gaps)[0] == output_rows(o)[0]);
            }
        } else {
            let with_gap = if gaps && starts_group_of(o.name@) && prev.len() > 0 {
                prev.push(None)
            } else {
                prev
            };
            assert(with_gap[0] == prev[0]);
            assert(doc_rows(outs, gaps)[0] == with_gap[0]);
        }
    }
}

} // verus!
