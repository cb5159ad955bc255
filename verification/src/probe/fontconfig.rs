//! The monospace font family, from the user's fontconfig file or from
//! `fc-match`.

use vstd::prelude::*;
use crate::text::{
    chars_of, concat, contains, contains_exec, contains_seq_exec, find, find_exec, find_from,
    find_from_exec, lemma_find, lemma_find_from, lemma_find_from_skip, lines, lines_exec,
    matches_at, opt_string, opt_view, slice, split_once, split_once_exec, split_pat,
    split_pat_exec, string_of, trim, trim_exec, views,
};

verus! {

// ---------------------------------------------------------------------------
// Tagged blocks
// ---------------------------------------------------------------------------

/// The blocks of `s` that run from an `open` marker up to the next `close`
/// marker (without it), in order; scanning stops at an open marker with no
/// close after it.
pub open spec fn tag_blocks(s: Seq<char>, open: Seq<char>, close: Seq<char>) -> Seq<Seq<char>>
    decreases s.len(),
{
    if close.len() == 0 {
        seq![]
    } else {
        match find(s, open) {
            None => seq![],
            Some(start) => {
                proof {
                    lemma_find(s, open);
                }
                let after = s.skip(start);
                match find(after, close) {
                    None => seq![],
                    Some(end) => {
                        proof {
                            lemma_find(after, close);
                        }
                        seq![after.take(end)] + tag_blocks(after.skip(end + close.len()), open, close)
                    },
                }
            },
        }
    }
}

fn tag_blocks_exec(s: &Vec<char>, open: &Vec<char>, close: &Vec<char>) -> (r: Vec<Vec<char>>)
    requires
        close.len() > 0,
    ensures
        views(r@) == tag_blocks(s@, open@, close@),
{
    let mut r: Vec<Vec<char>> = Vec::new();
    let mut pos: usize = 0;
    assert(s@.skip(0) =~= s@);
    loop
        invariant
            pos <= s.len(),
            close.len() > 0,
            views(r@) + tag_blocks(s@.skip(pos as int), open@, close@) == tag_blocks(
                s@,
                open@,
                close@,
            ),
        decreases s.len() - pos,
    {
        let ghost rest = s@.skip(pos as int);
        proof {
            lemma_find_from_skip(s@, open@, pos as int, 0);
        }
        match find_from_exec(s, open, pos) {
            None => {
                assert(find(rest, open@) is None);
                assert(views(r@) + tag_blocks(rest, open@, close@) =~= views(r@));
                return r;
            },
            Some(i) => {
                assert(find(rest, open@) == Some(i - pos));
                let ghost after = rest.skip(i - pos);
                assert(after =~= s@.skip(i as int));
                proof {
                    lemma_find_from_skip(s@, close@, i as int, 0);
                }
                match find_from_exec(s, close, i) {
                    None => {
                        assert(find(after, close@) is None);
                        assert(views(r@) + tag_blocks(rest, open@, close@) =~= views(r@));
                        return r;
                    },
                    Some(j) => {
                        assert(find(after, close@) == Some(j - i));
                        let block = slice(s, i, j);
                        assert(block@ =~= after.take(j - i));
                        assert(after.skip(j - i + close@.len()) =~= s@.skip(j + close@.len()));
                        let ghost before = views(r@);
                        r.push(block);
                        assert(views(r@) =~= before.push(block@));
                        pos = j + close.len();
                        assert(views(r@) + tag_blocks(s@.skip(pos as int), open@, close@) =~= before
                            + tag_blocks(rest, open@, close@));
                    },
                }
            },
        }
    }
}

// ---------------------------------------------------------------------------
// Tags and string values
// ---------------------------------------------------------------------------

/// A tag's header: the text before its first `>`.
pub open spec fn tag_header(tag: Seq<char>) -> Seq<char> {
    match find(tag, ">"@) {
        Some(i) => tag.take(i),
        None => tag,
    }
}

/// Whether a tag's header carries `name="…"` or `name='…'` for `name`.
pub open spec fn has_name_attr_of(tag: Seq<char>, name: Seq<char>) -> bool {
    contains(tag_header(tag), "name=\""@ + name + "\""@) || contains(
        tag_header(tag),
        "name='"@ + name + "'"@,
    )
}

/// A tag's header is the tag up to its first `>`: a prefix of the tag with
/// no `>` in it, followed by `>` or by the end of the tag.
pub proof fn lemma_tag_header_before_first_close(tag: Seq<char>)
    ensures
        tag_header(tag).len() <= tag.len(),
        tag_header(tag) == tag.take(tag_header(tag).len() as int),
        forall|j: int| 0 <= j < tag_header(tag).len() ==> tag_header(tag)[j] != '>',
        tag_header(tag).len() < tag.len() ==> tag[tag_header(tag).len() as int] == '>',
{
    reveal_strlit(">");
    let gt = ">"@;
    lemma_find(tag, gt);
    match find(tag, gt) {
        Some(i) => {
            assert forall|j: int| 0 <= j < i implies tag.take(i)[j] != '>' by {
                assert(tag.take(i)[j] == tag[j]);
                if tag[j] == '>' {
                    assert(tag.subrange(j, j + 1) =~= gt);
                }
                assert(!matches_at(tag, gt, j));
            }
            assert(tag.subrange(i, i + 1)[0] == tag[i]);
        },
        None => {
            assert(tag.take(tag.len() as int) =~= tag);
            assert forall|j: int| 0 <= j < tag.len() implies tag[j] != '>' by {
                if tag[j] == '>' {
                    assert(tag.subrange(j, j + 1) =~= gt);
                }
                assert(!matches_at(tag, gt, j));
            }
        },
    }
}

/// Either quote style names the attribute: a tag whose header carries
/// `name='n'` is recognised as having the name `n`, just as one carrying
/// `name="n"`; and a header with neither form does not have it.
pub proof fn lemma_name_attr_either_quote(tag: Seq<char>, name: Seq<char>)
    ensures
        contains(tag_header(tag), "name='"@ + name + "'"@) ==> has_name_attr_of(tag, name),
        contains(tag_header(tag), "name=\""@ + name + "\""@) ==> has_name_attr_of(tag, name),
        !contains(tag_header(tag), "name='"@ + name + "'"@) && !contains(
            tag_header(tag),
            "name=\""@ + name + "\""@,
        ) ==> !has_name_attr_of(tag, name),
{
}

fn has_name_attr(tag: &Vec<char>, name: &Vec<char>) -> (b: bool)
    ensures
        b == has_name_attr_of(tag@, name@),
{
    let header = match find_exec(tag, &chars_of(">")) {
        Some(i) => slice(tag, 0, i),
        None => tag.clone(),
    };
    proof {
        lemma_find(tag@, ">"@);
    }
    assert(header@ =~= tag_header(tag@));
    let double = concat(&concat(&chars_of("name=\""), name), &chars_of("\""));
    let single = concat(&concat(&chars_of("name='"), name), &chars_of("'"));
    contains_exec(&header, &double) || contains_exec(&header, &single)
}

/// The non-blank trimmed texts of the pieces that have a `</string>` after
/// them.
pub open spec fn string_vals(parts: Seq<Seq<char>>) -> Seq<Seq<char>>
    decreases parts.len(),
{
    if parts.len() == 0 {
        seq![]
    } else {
        let rest = string_vals(parts.drop_first());
        match split_once(parts[0], "</string>"@) {
            Some(kv) => if trim(kv.0).len() > 0 {
                seq![trim(kv.0)] + rest
            } else {
                rest
            },
            None => rest,
        }
    }
}

/// The non-blank `<string>` values of a block, trimmed, in order.
pub open spec fn string_values_of(block: Seq<char>) -> Seq<Seq<char>> {
    string_vals(split_pat(block, "<string>"@).drop_first())
}

fn string_values(block: &Vec<char>) -> (r: Vec<Vec<char>>)
    ensures
        views(r@) == string_values_of(block@),
{
    proof {
        reveal_strlit("<string>");
    }
    let parts = split_pat_exec(block, &chars_of("<string>"));
    let close = chars_of("</string>");
    let ghost ps = views(parts@).drop_first();
    let mut r: Vec<Vec<char>> = Vec::new();
    let mut i: usize = 1;
    assert(views(parts@).skip(1) =~= ps);
    while i < parts.len()
        invariant
            1 <= i <= parts.len(),
            close@ == "</string>"@,
            ps == views(parts@).drop_first(),
            views(r@) + string_vals(views(parts@).skip(i as int)) == string_vals(ps),
        decreases parts.len() - i,
    {
        let ghost rest = views(parts@).skip(i as int);
        assert(rest[0] == parts@[i as int]@);
        assert(rest.drop_first() =~= views(parts@).skip(i + 1));
        let ghost before = views(r@);
        match split_once_exec(&parts[i], &close) {
            Some((value, _)) => {
                let t = trim_exec(&value);
                if t.len() > 0 {
                    r.push(t);
                    assert(views(r@) =~= before.push(trim(value@)));
                    assert(views(r@) + string_vals(views(parts@).skip(i + 1)) =~= before + string_vals(
                        rest,
                    ));
                }
            },
            None => {},
        }
        i += 1;
    }
    assert(views(parts@).skip(i as int).len() == 0);
    assert(views(r@) + string_vals(views(parts@).skip(i as int)) =~= views(r@));
    r
}

// ---------------------------------------------------------------------------
// fonts.conf
// ---------------------------------------------------------------------------

/// Whether one of the `<test>` blocks is on the family name and lists `fam`.
pub open spec fn any_family_test(tests: Seq<Seq<char>>, fam: Seq<char>) -> bool
    decreases tests.len(),
{
    if tests.len() == 0 {
        false
    } else {
        (has_name_attr_of(tests[0], "family"@) && string_values_of(tests[0]).contains(fam))
            || any_family_test(tests.drop_first(), fam)
    }
}

/// The first value of the first `<edit>` block on the family name, `None`
/// when that block has no value.
pub open spec fn first_family_edit(edits: Seq<Seq<char>>) -> Option<Seq<char>>
    decreases edits.len(),
{
    if edits.len() == 0 {
        None
    } else if has_name_attr_of(edits[0], "family"@) {
        if string_values_of(edits[0]).len() > 0 {
            Some(string_values_of(edits[0])[0])
        } else {
            None
        }
    } else {
        first_family_edit(edits.drop_first())
    }
}

/// The family a `<match>` block substitutes for `monospace`, if it tests
/// for monospace.
pub open spec fn match_block_family(block: Seq<char>) -> Option<Seq<char>> {
    if any_family_test(tag_blocks(block, "<test"@, "</test>"@), "monospace"@) {
        first_family_edit(tag_blocks(block, "<edit"@, "</edit>"@))
    } else {
        None
    }
}

/// The family of the first `<match>` block that gives one.
pub open spec fn first_match_family(blocks: Seq<Seq<char>>) -> Option<Seq<char>>
    decreases blocks.len(),
{
    if blocks.len() == 0 {
        None
    } else {
        match match_block_family(blocks[0]) {
            Some(f) => Some(f),
            None => first_match_family(blocks.drop_first()),
        }
    }
}

/// The monospace family that a fonts.conf file configures.
pub open spec fn fonts_conf_family(input: Seq<char>) -> Option<Seq<char>> {
    first_match_family(tag_blocks(input, "<match"@, "</match>"@))
}

fn tests_family(block: &Vec<char>, fam: &Vec<char>) -> (b: bool)
    ensures
        b == any_family_test(tag_blocks(block@, "<test"@, "</test>"@), fam@),
{
    proof {
        reveal_strlit("</test>");
    }
    let tests = tag_blocks_exec(block, &chars_of("<test"), &chars_of("</test>"));
    let family = chars_of("family");
    let ghost ts = views(tests@);
    let mut i: usize = 0;
    assert(ts.skip(0) =~= ts);
    while i < tests.len()
        invariant
            i <= tests.len(),
            ts == views(tests@),
            family@ == "family"@,
            ts == tag_blocks(block@, "<test"@, "</test>"@),
            any_family_test(ts, fam@) == any_family_test(ts.skip(i as int), fam@),
        decreases tests.len() - i,
    {
        assert(ts.skip(i as int)[0] == tests@[i as int]@);
        assert(ts.skip(i as int).drop_first() =~= ts.skip(i + 1));
        if has_name_attr(&tests[i], &family) {
            let vals = string_values(&tests[i]);
            if contains_seq_exec(&vals, fam) {
                return true;
            }
        }
        i += 1;
    }
    false
}

fn edited_family(block: &Vec<char>) -> (r: Option<Vec<char>>)
    ensures
        match r {
            Some(v) => first_family_edit(tag_blocks(block@, "<edit"@, "</edit>"@)) == Some(v@),
            None => first_family_edit(tag_blocks(block@, "<edit"@, "</edit>"@)) is None,
        },
{
    proof {
        reveal_strlit("</edit>");
    }
    let edits = tag_blocks_exec(block, &chars_of("<edit"), &chars_of("</edit>"));
    let family = chars_of("family");
    let ghost es = views(edits@);
    let mut i: usize = 0;
    assert(es.skip(0) =~= es);
    while i < edits.len()
        invariant
            i <= edits.len(),
            es == views(edits@),
            family@ == "family"@,
            es == tag_blocks(block@, "<edit"@, "</edit>"@),
            first_family_edit(es) == first_family_edit(es.skip(i as int)),
        decreases edits.len() - i,
    {
        assert(es.skip(i as int)[0] == edits@[i as int]@);
        assert(es.skip(i as int).drop_first() =~= es.skip(i + 1));
        if has_name_attr(&edits[i], &family) {
            let vals = string_values(&edits[i]);
            if vals.len() > 0 {
                assert(views(vals@)[0] == vals@[0]@);
                return Some(vals[0].clone());
            } else {
                return None;
            }
        }
        i += 1;
    }
    None
}

fn family_from_match_block(block: &Vec<char>) -> (r: Option<Vec<char>>)
    ensures
        match r {
            Some(v) => match_block_family(block@) == Some(v@),
            None => match_block_family(block@) is None,
        },
{
    if tests_family(block, &chars_of("monospace")) {
        edited_family(block)
    } else {
        None
    }
}

/// The monospace family configured in the contents of a fonts.conf file:
/// from the first `<match>` block that tests the family for `monospace` and
/// edits the family.
pub fn family_from_fonts_conf(input: &str) -> (r: Option<String>)
    ensures
        opt_view(r) == fonts_conf_family(input@),
{
    proof {
        reveal_strlit("</match>");
    }
    let blocks = tag_blocks_exec(&chars_of(input), &chars_of("<match"), &chars_of("</match>"));
    let ghost bs = views(blocks@);
    let mut i: usize = 0;
    assert(bs.skip(0) =~= bs);
    while i < blocks.len()
        invariant
            i <= blocks.len(),
            bs == views(blocks@),
            bs == tag_blocks(input@, "<match"@, "</match>"@),
            first_match_family(bs) == first_match_family(bs.skip(i as int)),
        decreases blocks.len() - i,
    {
        assert(bs.skip(i as int)[0] == blocks@[i as int]@);
        assert(bs.skip(i as int).drop_first() =~= bs.skip(i + 1));
        match family_from_match_block(&blocks[i]) {
            Some(f) => {
                return Some(string_of(&f));
            },
            None => {},
        }
        i += 1;
    }
    None
}

// ---------------------------------------------------------------------------
// fc-match
// ---------------------------------------------------------------------------

/// The first family that `fc-match -f '%{family}'` prints: the first line up
/// to its first comma, trimmed; `None` when that is blank.
pub open spec fn fc_match_family(output: Seq<char>) -> Option<Seq<char>> {
    let ls = lines(output);
    if ls.len() == 0 {
        None
    } else {
        let first = match find(ls[0], ","@) {
            Some(i) => ls[0].take(i),
            None => ls[0],
        };
        if trim(first).len() > 0 {
            Some(trim(first))
        } else {
            None
        }
    }
}

/// The first family in the output of `fc-match monospace -f '%{family}\n'`.
pub fn family_from_fc_match(output: &str) -> (r: Option<String>)
    ensures
        opt_view(r) == fc_match_family(output@),
{
    let ls = lines_exec(&chars_of(output));
    if ls.len() == 0 {
        return None;
    }
    assert(views(ls@)[0] == ls@[0]@);
    let line = &ls[0];
    let first = match find_exec(line, &chars_of(",")) {
        Some(i) => slice(line, 0, i),
        None => line.clone(),
    };
    proof {
        lemma_find(line@, ","@);
    }
    let t = trim_exec(&first);
    if t.len() > 0 {
        Some(string_of(&t))
    } else {
        None
    }
}

/// The monospace family: from the fonts.conf contents when they configure
/// one, otherwise from the output of `fc-match`.
pub fn monospace_family(fonts_conf: Option<String>, fc_match: Option<String>) -> (r: Option<
    String,
>)
    ensures
        opt_view(r) == match match fonts_conf {
            Some(c) => fonts_conf_family(c@),
            None => None,
        } {
            Some(f) => Some(f),
            None => match fc_match {
                Some(o) => fc_match_family(o@),
                None => None,
            },
        },
{
    let from_conf = match fonts_conf {
        Some(c) => family_from_fonts_conf(c.as_str()),
        None => None,
    };
    match from_conf {
        Some(f) => Some(f),
        None => match fc_match {
            Some(o) => family_from_fc_match(o.as_str()),
            None => None,
        },
    }
}

} // verus!
