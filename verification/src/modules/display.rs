//! Connected displays, from the output of `hyprctl monitors`.
//!
//! The monitor blocks are read here; turning the refresh rate and the scale
//! into display text goes through floating point and is the caller's part,
//! which then hands the formatted fields back to `DisplayInfo`.

use vstd::prelude::*;
use crate::modules::types::Module;
use crate::modules::registry::{key_name, ModuleKey};
use crate::text::{
    chars_of, join, join_exec, lines, lines_exec, opt_view, split_once, split_once_exec,
    starts_with, starts_with_exec, string_of, strip_prefix, strip_prefix_exec, trim, trim_exec,
    views,
};

verus! {

/// The connected displays.
pub struct Display;

impl Module for Display {
    fn name(&self) -> (r: &'static str)
        ensures
            r@ == key_name(ModuleKey::Display),
    {
        "display"
    }

    fn label(&self) -> (r: &'static str)
        ensures
            r@ == "Display"@,
    {
        "Display"
    }
}

/// The raw fields of one monitor block: its model, its resolution
/// (`WIDTHxHEIGHT@RATE`) and its scale.
#[derive(Debug, Clone, PartialEq, Eq)]
pub struct MonitorFields {
    pub model: Option<String>,
    pub resolution: Option<String>,
    pub scale: Option<String>,
}

/// A monitor's fields as plain values.
pub type Mon = (Option<Seq<char>>, Option<Seq<char>>, Option<Seq<char>>);

/// No fields read yet.
pub open spec fn empty_mon() -> Mon {
    (None, None, None)
}

/// Reading one line of `hyprctl monitors` output: a `Monitor` header closes
/// the current block (kept when it has a resolution) and opens a new one; a
/// `… at …` line gives the resolution, `model:` and `scale:` lines give those
/// fields.
pub open spec fn hypr_step(st: (Seq<Mon>, Mon), line: Seq<char>) -> (Seq<Mon>, Mon) {
    let l = trim(line);
    if starts_with(l, "Monitor "@) {
        (
            if st.1.1 is Some {
                st.0.push(st.1)
            } else {
                st.0
            },
            empty_mon(),
        )
    } else {
        match split_once(l, " at "@) {
            Some(p) => (st.0, (st.1.0, Some(p.0), st.1.2)),
            None => match strip_prefix(l, "model: "@) {
                Some(m) => (st.0, (Some(m), st.1.1, st.1.2)),
                None => match strip_prefix(l, "scale: "@) {
                    Some(s) => (st.0, (st.1.0, st.1.1, Some(s))),
                    None => st,
                },
            },
        }
    }
}

/// The state after reading the lines in order.
pub open spec fn hypr_fold(ls: Seq<Seq<char>>) -> (Seq<Mon>, Mon)
    decreases ls.len(),
{
    if ls.len() == 0 {
        (seq![], empty_mon())
    } else {
        hypr_step(hypr_fold(ls.drop_last()), ls.last())
    }
}

/// The monitor blocks of `hyprctl monitors` output that have a resolution,
/// in order.
pub open spec fn monitors_of(input: Seq<char>) -> Seq<Mon> {
    let st = hypr_fold(lines(input));
    if st.1.1 is Some {
        st.0.push(st.1)
    } else {
        st.0
    }
}

/// A monitor's fields as plain values.
pub open spec fn mon_view(m: MonitorFields) -> Mon {
    (opt_view(m.model), opt_view(m.resolution), opt_view(m.scale))
}

/// Monitors' fields as plain values.
pub open spec fn mon_views(v: Seq<MonitorFields>) -> Seq<Mon> {
    v.map_values(|m: MonitorFields| mon_view(m))
}

fn opt_clone(o: &Option<Vec<char>>) -> (r: Option<String>)
    ensures
        opt_view(r) == match o {
            Some(v) => Some(v@),
            None => None,
        },
{
    match o {
        Some(v) => Some(string_of(v)),
        None => None,
    }
}

/// The monitor blocks of `hyprctl monitors` output that name a resolution,
/// with their raw model, resolution and scale.
pub fn monitors_from_hyprctl(input: &str) -> (r: Vec<MonitorFields>)
    ensures
        mon_views(r@) == monitors_of(input@),
{
    let ls = lines_exec(&chars_of(input));
    let ghost vl = views(ls@);
    let header = chars_of("Monitor ");
    let at = chars_of(" at ");
    let model_p = chars_of("model: ");
    let scale_p = chars_of("scale: ");
    let mut done: Vec<MonitorFields> = Vec::new();
    let mut model: Option<Vec<char>> = None;
    let mut resolution: Option<Vec<char>> = None;
    let mut scale: Option<Vec<char>> = None;
    let mut i: usize = 0;
    while i < ls.len()
        invariant
            i <= ls.len(),
            vl == views(ls@),
            header@ == "Monitor "@,
            at@ == " at "@,
            model_p@ == "model: "@,
            scale_p@ == "scale: "@,
            hypr_fold(vl.take(i as int)) == (
                mon_views(done@),
                (
                    match model {
                        Some(v) => Some(v@),
                        None => None,
                    },
                    match resolution {
                        Some(v) => Some(v@),
                        None => None,
                    },
                    match scale {
                        Some(v) => Some(v@),
                        None => None,
                    },
                ),
            ),
        decreases ls.len() - i,
    {
        assert(vl.take(i + 1).last() == ls@[i as int]@);
        assert(vl.take(i + 1).drop_last() =~= vl.take(i as int));
        let line = trim_exec(&ls[i]);
        if starts_with_exec(&line, &header) {
            if resolution.is_some() {
                let ghost before = mon_views(done@);
                let m = MonitorFields {
                    model: opt_clone(&model),
                    resolution: opt_clone(&resolution),
                    scale: opt_clone(&scale),
                };
                done.push(m);
                assert(mon_views(done@) =~= before.push(mon_view(m)));
            }
            model = None;
            resolution = None;
            scale = None;
        } else {
            match split_once_exec(&line, &at) {
                Some((res, _)) => {
                    resolution = Some(res);
                },
                None => match strip_prefix_exec(&line, &model_p) {
                    Some(m) => {
                        model = Some(m);
                    },
                    None => match strip_prefix_exec(&line, &scale_p) {
                        Some(s) => {
                            scale = Some(s);
                        },
                        None => {},
                    },
                },
            }
        }
        i += 1;
    }
    assert(vl.take(ls.len() as int) =~= vl);
    if resolution.is_some() {
        let ghost before = mon_views(done@);
        let m = MonitorFields {
            model: opt_clone(&model),
            resolution: opt_clone(&resolution),
            scale: opt_clone(&scale),
        };
        done.push(m);
        assert(mon_views(done@) =~= before.push(mon_view(m)));
    }
    done
}

/// A monitor ready to be shown: its model, its mode (`3840x2160 120 Hz`) and
/// its scale (`2x`).
#[derive(Debug, Clone, PartialEq, Eq, Default)]
pub struct DisplayInfo {
    pub model: Option<String>,
    pub mode: Option<String>,
    pub scale: Option<String>,
}

/// How a monitor is shown: model, mode and scale separated by spaces, the
/// model and scale only where known; nothing without a mode.
pub open spec fn display_text(model: Option<Seq<char>>, mode: Option<Seq<char>>, scale: Option<
    Seq<char>,
>) -> Option<Seq<char>> {
    match mode {
        None => None,
        Some(m) => {
            let a: Seq<Seq<char>> = match model {
                Some(x) => seq![x],
                None => seq![],
            };
            let b = a.push(m);
            let c = match scale {
                Some(s) => b.push(s),
                None => b,
            };
            Some(join(c, " "@))
        },
    }
}

impl DisplayInfo {
    /// The text for this monitor, `None` when its mode is not known.
    pub fn format(&self) -> (r: Option<String>)
        ensures
            opt_view(r) == display_text(opt_view(self.model), opt_view(self.mode), opt_view(self.scale)),
    {
        let mode = match &self.mode {
            Some(m) => chars_of(m.as_str()),
            None => return None,
        };
        let mut parts: Vec<Vec<char>> = Vec::new();
        match &self.model {
            Some(x) => {
                parts.push(chars_of(x.as_str()));
                assert(views(parts@) =~= seq![x@]);
            },
            None => {
                assert(views(parts@) =~= Seq::<Seq<char>>::empty());
            },
        }
        let ghost a = views(parts@);
        parts.push(mode);
        assert(views(parts@) =~= a.push(mode@));
        match &self.scale {
            Some(s) => {
                let ghost b = views(parts@);
                parts.push(chars_of(s.as_str()));
                assert(views(parts@) =~= b.push(s@));
            },
            None => {},
        }
        Some(string_of(&join_exec(&parts, &chars_of(" "))))
    }
}

/// The texts of the monitors that have one, in order.
pub open spec fn display_texts(infos: Seq<DisplayInfo>) -> Seq<Seq<char>>
    decreases infos.len(),
{
    if infos.len() == 0 {
        seq![]
    } else {
        let prev = display_texts(infos.drop_last());
        let d = infos.last();
        match display_text(opt_view(d.model), opt_view(d.mode), opt_view(d.scale)) {
            Some(t) => prev.push(t),
            None => prev,
        }
    }
}

/// All monitors on one line, separated by commas; `None` when no monitor has
/// a mode.
pub open spec fn displays_line(infos: Seq<DisplayInfo>) -> Option<Seq<char>> {
    if display_texts(infos).len() == 0 {
        None
    } else {
        Some(join(display_texts(infos), ", "@))
    }
}

/// The displays value: the monitors with a mode, separated by commas.
pub fn join_displays(infos: &Vec<DisplayInfo>) -> (r: Option<String>)
    ensures
        opt_view(r) == displays_line(infos@),
{
    let mut texts: Vec<Vec<char>> = Vec::new();
    let mut i: usize = 0;
    while i < infos.len()
        invariant
            i <= infos.len(),
            views(texts@) == display_texts(infos@.take(i as int)),
        decreases infos.len() - i,
    {
        assert(infos@.take(i + 1).drop_last() =~= infos@.take(i as int));
        assert(infos@.take(i + 1).last() == infos@[i as int]);
        match infos[i].format() {
            Some(t) => {
                let ghost before = views(texts@);
                texts.push(chars_of(t.as_str()));
                assert(views(texts@) =~= before.push(t@));
            },
            None => {},
        }
        i += 1;
    }
    assert(infos@.take(infos.len() as int) =~= infos@);
    if texts.len() == 0 {
        None
    } else {
        Some(string_of(&join_exec(&texts, &chars_of(", "))))
    }
}

} // verus!
