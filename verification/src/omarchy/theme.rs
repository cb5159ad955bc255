//! The current Omarchy theme: its name, colour mode, accent and wallpaper.

use vstd::prelude::*;
use crate::text::{
    append, chars_of, ends_with, ends_with_exec, join, join_exec, lines, lines_exec, opt_view,
    split_any, split_any_exec, split_once, split_once_exec, starts_with, starts_with_exec,
    string_of, trim, trim_exec, trim_matches_char, trim_matches_exec, views, eq_exec, all_ascii,
    ascii_upper, lemma_split_any_ascii,
};

verus! {

/// What the theme files say about the current theme.
#[derive(Debug, Clone, PartialEq, Eq, Default)]
pub struct ThemeIdentity {
    pub name: Option<String>,
    pub variant: Option<String>,
    pub accent: Option<String>,
    pub wallpaper: Option<String>,
}

/// The value of the first `key = "value"` line for `key`, skipping comment
/// lines; surrounding spaces and quotes are dropped.
pub open spec fn toml_value(ls: Seq<Seq<char>>, key: Seq<char>) -> Option<Seq<char>>
    decreases ls.len(),
{
    if ls.len() == 0 {
        None
    } else {
        let l = trim(ls[0]);
        if starts_with(l, "#"@) {
            toml_value(ls.drop_first(), key)
        } else {
            match split_once(l, "="@) {
                Some(kv) => if trim(kv.0) == key {
                    Some(trim_matches_char(trim(kv.1), '"'))
                } else {
                    toml_value(ls.drop_first(), key)
                },
                None => toml_value(ls.drop_first(), key),
            }
        }
    }
}

/// The string value of a top-level key in a small TOML file.
pub fn read_toml_string(input: &str, key: &str) -> (r: Option<String>)
    ensures
        opt_view(r) == toml_value(lines(input@), key@),
{
    let ls = lines_exec(&chars_of(input));
    let k = chars_of(key);
    let hash = chars_of("#");
    let eq = chars_of("=");
    let mut i: usize = 0;
    assert(views(ls@).skip(0) =~= views(ls@));
    while i < ls.len()
        invariant
            i <= ls.len(),
            k@ == key@,
            hash@ == "#"@,
            eq@ == "="@,
            views(ls@) == lines(input@),
            toml_value(views(ls@), key@) == toml_value(views(ls@).skip(i as int), key@),
        decreases ls.len() - i,
    {
        assert(views(ls@).skip(i as int)[0] == ls@[i as int]@);
        assert(views(ls@).skip(i as int).drop_first() =~= views(ls@).skip(i + 1));
        let line = trim_exec(&ls[i]);
        if !starts_with_exec(&line, &hash) {
            match split_once_exec(&line, &eq) {
                Some((candidate, value)) => {
                    if eq_exec(&trim_exec(&candidate), &k) {
                        let v = trim_matches_exec(&trim_exec(&value), '"');
                        return Some(string_of(&v));
                    }
                },
                None => {},
            }
        }
        i += 1;
    }
    None
}

/// Whether a file name is an image a wallpaper can be.
pub open spec fn is_image_name(n: Seq<char>) -> bool {
    ends_with(n, ".png"@) || ends_with(n, ".jpg"@) || ends_with(n, ".jpeg"@)
}

/// The first image among the file names.
pub open spec fn first_image(names: Seq<Seq<char>>) -> Option<Seq<char>>
    decreases names.len(),
{
    if names.len() == 0 {
        None
    } else if is_image_name(names[0]) {
        Some(names[0])
    } else {
        first_image(names.drop_first())
    }
}

/// The string views of a list of strings.
pub open spec fn string_views(v: Seq<String>) -> Seq<Seq<char>> {
    v.map_values(|s: String| s@)
}

/// The wallpaper: the first image among the entries of the theme's
/// `backgrounds` directory, in directory order.
pub fn discover_wallpaper(backgrounds: &Vec<String>) -> (r: Option<String>)
    ensures
        opt_view(r) == first_image(string_views(backgrounds@)),
{
    let mut i: usize = 0;
    let ghost ns = string_views(backgrounds@);
    assert(ns.skip(0) =~= ns);
    while i < backgrounds.len()
        invariant
            i <= backgrounds.len(),
            ns == string_views(backgrounds@),
            first_image(ns) == first_image(ns.skip(i as int)),
        decreases backgrounds.len() - i,
    {
        assert(ns.skip(i as int)[0] == backgrounds@[i as int]@);
        assert(ns.skip(i as int).drop_first() =~= ns.skip(i + 1));
        let n = chars_of(backgrounds[i].as_str());
        if ends_with_exec(&n, &chars_of(".png")) || ends_with_exec(&n, &chars_of(".jpg"))
            || ends_with_exec(&n, &chars_of(".jpeg")) {
            return Some(backgrounds[i].clone());
        }
        i += 1;
    }
    None
}

/// The theme as the files describe it: its name from `theme.name`, its mode
/// and accent from `colors.toml`, and its wallpaper.
pub open spec fn identity_of(
    name: Option<Seq<char>>,
    colors: Option<Seq<char>>,
    backgrounds: Seq<Seq<char>>,
) -> (Option<Seq<char>>, Option<Seq<char>>, Option<Seq<char>>, Option<Seq<char>>) {
    (
        name,
        match colors {
            Some(c) => toml_value(lines(c), "mode"@),
            None => None,
        },
        match colors {
            Some(c) => toml_value(lines(c), "accent"@),
            None => None,
        },
        first_image(backgrounds),
    )
}

/// The current theme, given the contents of `theme.name` and
/// `theme/colors.toml` and the file names in `theme/backgrounds`.
pub fn discover(theme_name: Option<String>, colors: Option<String>, backgrounds: &Vec<String>) -> (r:
    ThemeIdentity)
    ensures
        (opt_view(r.name), opt_view(r.variant), opt_view(r.accent), opt_view(r.wallpaper))
            == identity_of(opt_view(theme_name), opt_view(colors), string_views(backgrounds@)),
{
    let (variant, accent) = match &colors {
        Some(c) => (read_toml_string(c.as_str(), "mode"), read_toml_string(c.as_str(), "accent")),
        None => (None, None),
    };
    ThemeIdentity {
        name: theme_name,
        variant,
        accent,
        wallpaper: discover_wallpaper(backgrounds),
    }
}

// ---------------------------------------------------------------------------
// Display names
// ---------------------------------------------------------------------------

/// What `char::to_uppercase` gives for a character.
pub uninterp spec fn uppercase_of(c: char) -> Seq<char>;

/// `char::to_uppercase`, collected into a string. Its value is named, since
/// it follows Unicode's case tables (and can be more than one character);
/// stated is what those tables give for ASCII: a lower-case letter becomes
/// its capital, any other ASCII character stays as it is.
#[verifier::external_body]
fn char_to_uppercase(c: char) -> (r: String)
    ensures
        r@ == uppercase_of(c),
        'a' <= c <= 'z' ==> r@ == seq![((c as u32) - 32) as char],
        (c as u32) < 128 && !('a' <= c <= 'z') ==> r@ == seq![c],
{
    c.to_uppercase().collect::<String>()
}

/// A word with its first character in upper case.
pub open spec fn capitalized(w: Seq<char>) -> Seq<char> {
    if w.len() == 0 {
        w
    } else {
        uppercase_of(w[0]) + w.drop_first()
    }
}

/// The non-empty pieces, each capitalized.
pub open spec fn capitalized_words(parts: Seq<Seq<char>>) -> Seq<Seq<char>>
    decreases parts.len(),
{
    if parts.len() == 0 {
        seq![]
    } else {
        let prev = capitalized_words(parts.drop_last());
        if parts.last().len() == 0 {
            prev
        } else {
            prev.push(capitalized(parts.last()))
        }
    }
}

/// A theme's display name: its `-` or `_` separated words, capitalized and
/// separated by spaces.
pub open spec fn display_name_of(name: Seq<char>) -> Seq<char> {
    join(capitalized_words(split_any(name, seq!['-', '_'])), " "@)
}

/// A word with its first character in upper case, for an ASCII word.
pub open spec fn ascii_capitalized(w: Seq<char>) -> Seq<char> {
    if w.len() == 0 {
        w
    } else {
        seq![ascii_upper(w[0])] + w.drop_first()
    }
}

/// The non-empty pieces, each capitalized, for ASCII pieces.
pub open spec fn ascii_capitalized_words(parts: Seq<Seq<char>>) -> Seq<Seq<char>>
    decreases parts.len(),
{
    if parts.len() == 0 {
        seq![]
    } else {
        let prev = ascii_capitalized_words(parts.drop_last());
        if parts.last().len() == 0 {
            prev
        } else {
            prev.push(ascii_capitalized(parts.last()))
        }
    }
}

/// The display name of an ASCII theme name: each word's first letter made a
/// capital, the rest as it is.
pub open spec fn ascii_display_name_of(name: Seq<char>) -> Seq<char> {
    join(ascii_capitalized_words(split_any(name, seq!['-', '_'])), " "@)
}

/// A theme's display name (`dazzle-dusk` gives `Dazzle Dusk`).
pub fn display_name(name: &str) -> (r: String)
    ensures
        r@ == display_name_of(name@),
        all_ascii(name@) ==> r@ == ascii_display_name_of(name@),
{
    let seps = vec!['-', '_'];
    let parts = split_any_exec(&chars_of(name), &seps);
    let ghost ps = views(parts@);
    proof {
        assert(seps@ =~= seq!['-', '_']);
        if all_ascii(name@) {
            lemma_split_any_ascii(name@, seps@);
        }
    }
    let mut words: Vec<Vec<char>> = Vec::new();
    let mut i: usize = 0;
    while i < parts.len()
        invariant
            i <= parts.len(),
            ps == views(parts@),
            ps == split_any(name@, seq!['-', '_']),
            views(words@) == capitalized_words(ps.take(i as int)),
            all_ascii(name@) ==> forall|k: int| 0 <= k < ps.len() ==> all_ascii(#[trigger] ps[k]),
            all_ascii(name@) ==> views(words@) == ascii_capitalized_words(ps.take(i as int)),
        decreases parts.len() - i,
    {
        assert(ps.take(i + 1).drop_last() =~= ps.take(i as int));
        assert(ps.take(i + 1).last() == parts@[i as int]@);
        let part = &parts[i];
        if part.len() > 0 {
            let first = char_to_uppercase(part[0]);
            let mut w = chars_of(first.as_str());
            append(&mut w, &crate::text::slice(part, 1, part.len()));
            assert(w@ =~= capitalized(part@));
            proof {
                if all_ascii(name@) {
                    assert(ps[i as int] == part@);
                    assert((part@[0] as u32) < 128);
                    assert(w@ =~= ascii_capitalized(part@));
                }
            }
            let ghost before = views(words@);
            words.push(w);
            assert(views(words@) =~= before.push(capitalized(part@)));
        }
        i += 1;
    }
    assert(ps.take(parts.len() as int) =~= ps);
    string_of(&join_exec(&words, &chars_of(" ")))
}

} // verus!
