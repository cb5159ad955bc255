//! Character-sequence primitives with mathematical specifications.
//!
//! Every operation here works on `Vec<char>` and is specified over the
//! `Seq<char>` view, so that the parsers built on top can state exactly what
//! they return.

use vstd::prelude::*;

verus! {

/// Appends one character to a string (`String::push`).
/// The contract restates the standard library documentation: the character
/// is added at the end and nothing else changes.
#[verifier::external_body]
fn push_char(s: &mut String, c: char)
    ensures
        final(s)@ == old(s)@.push(c),
{
    s.push(c);
}

/// The characters of a string slice, in order.
pub fn chars_of(s: &str) -> (v: Vec<char>)
    ensures
        v@ == s@,
{
    let n = s.unicode_len();
    let mut v: Vec<char> = Vec::new();
    let mut i: usize = 0;
    while i < n
        invariant
            n == s@.len(),
            i <= n,
            v@ == s@.take(i as int),
        decreases n - i,
    {
        v.push(s.get_char(i));
        i += 1;
        assert(v@ =~= s@.take(i as int));
    }
    assert(s@.take(n as int) =~= s@);
    v
}

/// A string holding exactly the given characters.
pub fn string_of(v: &Vec<char>) -> (s: String)
    ensures
        s@ == v@,
{
    let mut s = String::new();
    let mut i: usize = 0;
    while i < v.len()
        invariant
            i <= v.len(),
            s@ == v@.take(i as int),
        decreases v.len() - i,
    {
        push_char(&mut s, v[i]);
        i += 1;
        assert(s@ =~= v@.take(i as int));
    }
    assert(v@.take(v.len() as int) =~= v@);
    s
}


// ---------------------------------------------------------------------------
// Whitespace and trimming
// ---------------------------------------------------------------------------

/// Unicode `White_Space`, the set that `char::is_whitespace` tests.
pub open spec fn is_ws(c: char) -> bool {
    let u = c as u32;
    ||| u == 0x20
    ||| (0x09 <= u && u <= 0x0d)
    ||| u == 0x85
    ||| u == 0xa0
    ||| u == 0x1680
    ||| (0x2000 <= u && u <= 0x200a)
    ||| u == 0x2028
    ||| u == 0x2029
    ||| u == 0x202f
    ||| u == 0x205f
    ||| u == 0x3000
}

pub fn is_ws_exec(c: char) -> (b: bool)
    ensures
        b == is_ws(c),
{
    let u = c as u32;
    u == 0x20 || (0x09 <= u && u <= 0x0d) || u == 0x85 || u == 0xa0 || u == 0x1680 || (0x2000
        <= u && u <= 0x200a) || u == 0x2028 || u == 0x2029 || u == 0x202f || u == 0x205f || u
        == 0x3000
}

/// The sequence without its leading whitespace.
pub open spec fn trim_start(s: Seq<char>) -> Seq<char>
    decreases s.len(),
{
    if s.len() > 0 && is_ws(s[0]) {
        trim_start(s.drop_first())
    } else {
        s
    }
}

/// The sequence without its trailing whitespace.
pub open spec fn trim_end(s: Seq<char>) -> Seq<char>
    decreases s.len(),
{
    if s.len() > 0 && is_ws(s.last()) {
        trim_end(s.drop_last())
    } else {
        s
    }
}

/// The sequence without leading and trailing whitespace (`str::trim`).
pub open spec fn trim(s: Seq<char>) -> Seq<char> {
    trim_end(trim_start(s))
}

pub proof fn lemma_trim_start_at(s: Seq<char>, i: int)
    requires
        0 <= i <= s.len(),
        forall|k: int| 0 <= k < i ==> is_ws(#[trigger] s[k]),
        i == s.len() || !is_ws(s[i]),
    ensures
        trim_start(s) == s.skip(i),
    decreases i,
{
    if i == 0 {
        assert(s.skip(0) =~= s);
    } else {
        let t = s.drop_first();
        assert forall|k: int| 0 <= k < i - 1 implies is_ws(#[trigger] t[k]) by {
            assert(t[k] == s[k + 1]);
        }
        if i - 1 < t.len() {
            assert(t[i - 1] == s[i]);
        }
        lemma_trim_start_at(t, i - 1);
        assert(t.skip(i - 1) =~= s.skip(i));
    }
}

pub proof fn lemma_trim_end_at(s: Seq<char>, j: int)
    requires
        0 <= j <= s.len(),
        forall|k: int| j <= k < s.len() ==> is_ws(#[trigger] s[k]),
        j == 0 || !is_ws(s[j - 1]),
    ensures
        trim_end(s) == s.take(j),
    decreases s.len() - j,
{
    if j == s.len() {
        assert(s.take(j) =~= s);
    } else {
        let t = s.drop_last();
        assert forall|k: int| j <= k < t.len() implies is_ws(#[trigger] t[k]) by {
            assert(t[k] == s[k]);
        }
        if j > 0 {
            assert(t[j - 1] == s[j - 1]);
        }
        lemma_trim_end_at(t, j);
        assert(t.take(j) =~= s.take(j));
    }
}

pub proof fn lemma_trim_start_len(s: Seq<char>)
    ensures
        trim_start(s).len() <= s.len(),
        s.len() > 0 && trim_start(s).len() == s.len() ==> !is_ws(s[0]),
        trim_start(s).len() > 0 ==> !is_ws(trim_start(s)[0]),
    decreases s.len(),
{
    if s.len() > 0 && is_ws(s[0]) {
        lemma_trim_start_len(s.drop_first());
    }
}

/// Index of the first non-whitespace character at or after `from`.
fn skip_ws(s: &Vec<char>, from: usize) -> (i: usize)
    requires
        from <= s.len(),
    ensures
        from <= i <= s.len(),
        forall|k: int| from <= k < i ==> is_ws(#[trigger] s@[k]),
        i == s.len() || !is_ws(s@[i as int]),
{
    let mut i = from;
    while i < s.len() && is_ws_exec(s[i])
        invariant
            from <= i <= s.len(),
            forall|k: int| from <= k < i ==> is_ws(#[trigger] s@[k]),
        decreases s.len() - i,
    {
        i += 1;
    }
    i
}

/// The characters of `s` in `[a, b)`.
pub fn slice(s: &Vec<char>, a: usize, b: usize) -> (r: Vec<char>)
    requires
        a <= b <= s.len(),
    ensures
        r@ == s@.subrange(a as int, b as int),
{
    let mut r: Vec<char> = Vec::new();
    let mut i = a;
    while i < b
        invariant
            a <= i <= b <= s.len(),
            r@ == s@.subrange(a as int, i as int),
        decreases b - i,
    {
        r.push(s[i]);
        i += 1;
        assert(r@ =~= s@.subrange(a as int, i as int));
    }
    r
}

/// `str::trim_start`.
pub fn trim_start_exec(s: &Vec<char>) -> (r: Vec<char>)
    ensures
        r@ == trim_start(s@),
{
    let i = skip_ws(s, 0);
    proof {
        lemma_trim_start_at(s@, i as int);
    }
    assert(s@.subrange(i as int, s@.len() as int) =~= s@.skip(i as int));
    slice(s, i, s.len())
}

/// `str::trim_end`.
pub fn trim_end_exec(s: &Vec<char>) -> (r: Vec<char>)
    ensures
        r@ == trim_end(s@),
{
    let mut j = s.len();
    while j > 0 && is_ws_exec(s[j - 1])
        invariant
            j <= s.len(),
            forall|k: int| j <= k < s.len() ==> is_ws(#[trigger] s@[k]),
        decreases j,
    {
        j -= 1;
    }
    proof {
        lemma_trim_end_at(s@, j as int);
    }
    assert(s@.subrange(0, j as int) =~= s@.take(j as int));
    slice(s, 0, j)
}

/// `str::trim`.
pub fn trim_exec(s: &Vec<char>) -> (r: Vec<char>)
    ensures
        r@ == trim(s@),
{
    let t = trim_start_exec(s);
    trim_end_exec(&t)
}


// ---------------------------------------------------------------------------
// Pattern search
// ---------------------------------------------------------------------------

/// `p` occurs in `s` starting at index `i`.
pub open spec fn matches_at(s: Seq<char>, p: Seq<char>, i: int) -> bool {
    0 <= i && i + p.len() <= s.len() && s.subrange(i, i + p.len()) == p
}

/// First occurrence of `p` in `s` at or after index `k`.
pub open spec fn find_from(s: Seq<char>, p: Seq<char>, k: int) -> Option<int>
    decreases s.len() + 1 - k,
{
    if k < 0 || k + p.len() > s.len() {
        None
    } else if matches_at(s, p, k) {
        Some(k)
    } else {
        find_from(s, p, k + 1)
    }
}

/// First occurrence of `p` in `s` (`str::find`).
pub open spec fn find(s: Seq<char>, p: Seq<char>) -> Option<int> {
    find_from(s, p, 0)
}

/// `s` contains `p` (`str::contains`).
pub open spec fn contains(s: Seq<char>, p: Seq<char>) -> bool {
    find(s, p) is Some
}

/// Last occurrence of `p` in `s` starting at or before index `k`.
pub open spec fn rfind_upto(s: Seq<char>, p: Seq<char>, k: int) -> Option<int>
    decreases k + 1,
{
    if k < 0 {
        None
    } else if matches_at(s, p, k) {
        Some(k)
    } else {
        rfind_upto(s, p, k - 1)
    }
}

/// Last occurrence of `p` in `s` (`str::rfind`).
pub open spec fn rfind(s: Seq<char>, p: Seq<char>) -> Option<int> {
    rfind_upto(s, p, s.len() - p.len())
}

/// `s` starts with `p`.
pub open spec fn starts_with(s: Seq<char>, p: Seq<char>) -> bool {
    p.len() <= s.len() && s.take(p.len() as int) == p
}

/// `s` ends with `p`.
pub open spec fn ends_with(s: Seq<char>, p: Seq<char>) -> bool {
    p.len() <= s.len() && s.skip(s.len() - p.len()) == p
}

/// `str::split_once`: the parts before and after the first occurrence of `p`.
pub open spec fn split_once(s: Seq<char>, p: Seq<char>) -> Option<(Seq<char>, Seq<char>)> {
    match find(s, p) {
        Some(i) => Some((s.take(i), s.skip(i + p.len()))),
        None => None,
    }
}

/// `str::rsplit_once`: the parts before and after the last occurrence of `p`.
pub open spec fn rsplit_once(s: Seq<char>, p: Seq<char>) -> Option<(Seq<char>, Seq<char>)> {
    match rfind(s, p) {
        Some(i) => Some((s.take(i), s.skip(i + p.len()))),
        None => None,
    }
}

/// `str::strip_prefix`.
pub open spec fn strip_prefix(s: Seq<char>, p: Seq<char>) -> Option<Seq<char>> {
    if starts_with(s, p) {
        Some(s.skip(p.len() as int))
    } else {
        None
    }
}

/// `str::strip_suffix`.
pub open spec fn strip_suffix(s: Seq<char>, p: Seq<char>) -> Option<Seq<char>> {
    if ends_with(s, p) {
        Some(s.take(s.len() - p.len()))
    } else {
        None
    }
}

pub proof fn lemma_find_from(s: Seq<char>, p: Seq<char>, k: int)
    requires
        0 <= k,
    ensures
        match find_from(s, p, k) {
            Some(i) => k <= i && matches_at(s, p, i) && forall|j: int|
                k <= j < i ==> !#[trigger] matches_at(s, p, j),
            None => forall|j: int| k <= j ==> !#[trigger] matches_at(s, p, j),
        },
    decreases s.len() + 1 - k,
{
    if k + p.len() > s.len() {
    } else if matches_at(s, p, k) {
    } else {
        lemma_find_from(s, p, k + 1);
    }
}

pub proof fn lemma_find(s: Seq<char>, p: Seq<char>)
    ensures
        match find(s, p) {
            Some(i) => 0 <= i && i + p.len() <= s.len() && matches_at(s, p, i) && forall|j: int|
                0 <= j < i ==> !#[trigger] matches_at(s, p, j),
            None => forall|j: int| !#[trigger] matches_at(s, p, j),
        },
{
    lemma_find_from(s, p, 0);
}

pub proof fn lemma_rfind_upto(s: Seq<char>, p: Seq<char>, k: int)
    ensures
        match rfind_upto(s, p, k) {
            Some(i) => 0 <= i <= k && matches_at(s, p, i) && forall|j: int|
                i < j <= k ==> !#[trigger] matches_at(s, p, j),
            None => forall|j: int| j <= k ==> !#[trigger] matches_at(s, p, j),
        },
    decreases k + 1,
{
    if k < 0 {
    } else if matches_at(s, p, k) {
    } else {
        lemma_rfind_upto(s, p, k - 1);
    }
}

pub proof fn lemma_rfind(s: Seq<char>, p: Seq<char>)
    ensures
        match rfind(s, p) {
            Some(i) => 0 <= i && i + p.len() <= s.len() && matches_at(s, p, i) && forall|j: int|
                i < j ==> !#[trigger] matches_at(s, p, j),
            None => forall|j: int| !#[trigger] matches_at(s, p, j),
        },
{
    lemma_rfind_upto(s, p, s.len() - p.len());
}

/// Whether `p` occurs in `s` at index `i` (decided).
pub fn matches_at_exec(s: &Vec<char>, p: &Vec<char>, i: usize) -> (b: bool)
    ensures
        b == matches_at(s@, p@, i as int),
{
    if i > s.len() || p.len() > s.len() - i {
        return false;
    }
    let mut j: usize = 0;
    while j < p.len()
        invariant
            i + p.len() <= s.len(),
            j <= p.len(),
            forall|t: int| 0 <= t < j ==> s@[i + t] == p@[t],
        decreases p.len() - j,
    {
        if s[i + j] != p[j] {
            assert(s@.subrange(i as int, i + p.len())[j as int] != p@[j as int]);
            return false;
        }
        j += 1;
    }
    assert(s@.subrange(i as int, i + p.len()) =~= p@);
    true
}

/// First occurrence of `p` at or after `k`.
pub fn find_from_exec(s: &Vec<char>, p: &Vec<char>, k: usize) -> (r: Option<usize>)
    ensures
        match r {
            Some(i) => find_from(s@, p@, k as int) == Some(i as int) && k <= i && i + p@.len()
                <= s@.len(),
            None => find_from(s@, p@, k as int) is None,
        },
{
    let mut i = k;
    while i <= s.len() && p.len() <= s.len() - i
        invariant
            k <= i,
            find_from(s@, p@, k as int) == find_from(s@, p@, i as int),
        decreases s.len() + 1 - i,
    {
        if matches_at_exec(s, p, i) {
            return Some(i);
        }
        if p.len() == 0 {
            assert(s@.subrange(i as int, i as int) =~= p@);
        }
        i += 1;
    }
    None
}

/// `str::find`.
pub fn find_exec(s: &Vec<char>, p: &Vec<char>) -> (r: Option<usize>)
    ensures
        match r {
            Some(i) => find(s@, p@) == Some(i as int) && i + p@.len() <= s@.len(),
            None => find(s@, p@) is None,
        },
{
    find_from_exec(s, p, 0)
}

/// `str::contains`.
pub fn contains_exec(s: &Vec<char>, p: &Vec<char>) -> (b: bool)
    ensures
        b == contains(s@, p@),
{
    find_exec(s, p).is_some()
}

/// `str::rfind`.
pub fn rfind_exec(s: &Vec<char>, p: &Vec<char>) -> (r: Option<usize>)
    ensures
        match r {
            Some(i) => rfind(s@, p@) == Some(i as int),
            None => rfind(s@, p@) is None,
        },
{
    if p.len() > s.len() {
        return None;
    }
    let mut k = s.len() - p.len();
    loop
        invariant
            k + p.len() <= s.len(),
            rfind(s@, p@) == rfind_upto(s@, p@, k as int),
        decreases k,
    {
        if matches_at_exec(s, p, k) {
            return Some(k);
        }
        if k == 0 {
            assert(rfind_upto(s@, p@, k as int) == rfind_upto(s@, p@, k - 1));
            return None;
        }
        k -= 1;
    }
}

/// `str::starts_with`.
pub fn starts_with_exec(s: &Vec<char>, p: &Vec<char>) -> (b: bool)
    ensures
        b == starts_with(s@, p@),
{
    let b = matches_at_exec(s, p, 0);
    proof {
        if p@.len() <= s@.len() {
            assert(s@.subrange(0, p@.len() as int) =~= s@.take(p@.len() as int));
        }
    }
    b
}

/// `str::ends_with`.
pub fn ends_with_exec(s: &Vec<char>, p: &Vec<char>) -> (b: bool)
    ensures
        b == ends_with(s@, p@),
{
    if p.len() > s.len() {
        return false;
    }
    let b = matches_at_exec(s, p, s.len() - p.len());
    assert(s@.subrange(s@.len() - p@.len(), s@.len() as int) =~= s@.skip(s@.len() - p@.len()));
    b
}

/// Equality of two character sequences.
pub fn eq_exec(a: &Vec<char>, b: &Vec<char>) -> (r: bool)
    ensures
        r == (a@ == b@),
{
    if a.len() != b.len() {
        return false;
    }
    let r = matches_at_exec(a, b, 0);
    assert(a@.subrange(0, a@.len() as int) =~= a@);
    r
}

/// `str::split_once`.
pub fn split_once_exec(s: &Vec<char>, p: &Vec<char>) -> (r: Option<(Vec<char>, Vec<char>)>)
    ensures
        match r {
            Some((a, b)) => split_once(s@, p@) == Some((a@, b@)),
            None => split_once(s@, p@) is None,
        },
{
    proof {
        lemma_find(s@, p@);
    }
    match find_exec(s, p) {
        Some(i) => {
            assert(find(s@, p@) == Some(i as int));
            assert(matches_at(s@, p@, i as int));
            let n = s.len();
            let j = i + p.len();
            let a = slice(s, 0, i);
            let b = slice(s, j, n);
            assert(a@ =~= s@.take(i as int));
            assert(b@ =~= s@.skip(i + p@.len()));
            Some((a, b))
        },
        None => None,
    }
}

/// `str::rsplit_once`.
pub fn rsplit_once_exec(s: &Vec<char>, p: &Vec<char>) -> (r: Option<(Vec<char>, Vec<char>)>)
    ensures
        match r {
            Some((a, b)) => rsplit_once(s@, p@) == Some((a@, b@)),
            None => rsplit_once(s@, p@) is None,
        },
{
    proof {
        lemma_rfind(s@, p@);
    }
    match rfind_exec(s, p) {
        Some(i) => {
            assert(rfind(s@, p@) == Some(i as int));
            assert(matches_at(s@, p@, i as int));
            assert(i + p.len() <= s.len());
            let n = s.len();
            let j = i + p.len();
            let a = slice(s, 0, i);
            let b = slice(s, j, n);
            assert(a@ =~= s@.take(i as int));
            assert(b@ =~= s@.skip(i + p@.len()));
            Some((a, b))
        },
        None => None,
    }
}

/// `str::strip_prefix`.
pub fn strip_prefix_exec(s: &Vec<char>, p: &Vec<char>) -> (r: Option<Vec<char>>)
    ensures
        match r {
            Some(t) => strip_prefix(s@, p@) == Some(t@),
            None => strip_prefix(s@, p@) is None,
        },
{
    if starts_with_exec(s, p) {
        let t = slice(s, p.len(), s.len());
        assert(t@ =~= s@.skip(p@.len() as int));
        Some(t)
    } else {
        None
    }
}

/// `str::strip_suffix`.
pub fn strip_suffix_exec(s: &Vec<char>, p: &Vec<char>) -> (r: Option<Vec<char>>)
    ensures
        match r {
            Some(t) => strip_suffix(s@, p@) == Some(t@),
            None => strip_suffix(s@, p@) is None,
        },
{
    if ends_with_exec(s, p) {
        let t = slice(s, 0, s.len() - p.len());
        assert(t@ =~= s@.take(s@.len() - p@.len()));
        Some(t)
    } else {
        None
    }
}


pub proof fn lemma_matches_skip(s: Seq<char>, p: Seq<char>, pos: int, k: int)
    requires
        0 <= pos <= s.len(),
        0 <= k,
    ensures
        matches_at(s.skip(pos), p, k) == matches_at(s, p, pos + k),
{
    if k + p.len() <= s.len() - pos {
        assert(s.skip(pos).subrange(k, k + p.len()) =~= s.subrange(pos + k, pos + k + p.len()));
    }
}

pub proof fn lemma_find_from_skip(s: Seq<char>, p: Seq<char>, pos: int, k: int)
    requires
        0 <= pos <= s.len(),
        0 <= k,
    ensures
        find_from(s.skip(pos), p, k) == match find_from(s, p, pos + k) {
            Some(i) => Some(i - pos),
            None => None,
        },
    decreases s.len() + 1 - (pos + k),
{
    lemma_matches_skip(s, p, pos, k);
    if k + p.len() > s.len() - pos {
    } else if matches_at(s, p, pos + k) {
    } else {
        lemma_find_from_skip(s, p, pos, k + 1);
    }
}

// ---------------------------------------------------------------------------
// Splitting and joining
// ---------------------------------------------------------------------------

/// The character sequences held by a vector of character vectors.
pub open spec fn views(v: Seq<Vec<char>>) -> Seq<Seq<char>> {
    v.map_values(|x: Vec<char>| x@)
}

/// A line without its trailing carriage return.
pub open spec fn strip_cr(t: Seq<char>) -> Seq<char> {
    if t.len() > 0 && t.last() == '\r' {
        t.drop_last()
    } else {
        t
    }
}

/// `str::lines`: pieces between `'\n'` (a `"\r\n"` ending counts as one),
/// with no empty piece after a final line ending.
pub open spec fn lines(s: Seq<char>) -> Seq<Seq<char>>
    decreases s.len(),
{
    if s.len() == 0 {
        seq![]
    } else {
        match find(s, seq!['\n']) {
            Some(i) => {
                proof {
                    lemma_find(s, seq!['\n']);
                }
                seq![strip_cr(s.take(i))] + lines(s.skip(i + 1))
            },
            None => seq![s],
        }
    }
}

/// `str::lines`.
pub fn lines_exec(s: &Vec<char>) -> (r: Vec<Vec<char>>)
    ensures
        views(r@) == lines(s@),
{
    let nl = vec!['\n'];
    let mut r: Vec<Vec<char>> = Vec::new();
    let mut pos: usize = 0;
    assert(s@.skip(0) =~= s@);
    loop
        invariant
            pos <= s.len(),
            nl@ == seq!['\n'],
            views(r@) + lines(s@.skip(pos as int)) == lines(s@),
        decreases s.len() - pos,
    {
        let ghost rest = s@.skip(pos as int);
        if pos == s.len() {
            assert(views(r@) + lines(rest) =~= views(r@));
            return r;
        }
        proof {
            lemma_find_from_skip(s@, nl@, pos as int, 0);
            lemma_find(s@, nl@);
            lemma_find_from(s@, nl@, pos as int);
        }
        match find_from_exec(s, &nl, pos) {
            Some(i) => {
                assert(find(rest, nl@) == Some(i - pos));
                let mut line = slice(s, pos, i);
                if line.len() > 0 && line[line.len() - 1] == '\r' {
                    line.pop();
                }
                assert(line@ =~= strip_cr(rest.take(i - pos)));
                assert(rest.skip(i - pos + 1) =~= s@.skip(i + 1));
                let ghost before = views(r@);
                r.push(line);
                assert(views(r@) =~= before.push(line@));
                pos = i + 1;
                assert(views(r@) + lines(s@.skip(pos as int)) =~= before + lines(rest));
            },
            None => {
                assert(find(rest, nl@) is None);
                let line = slice(s, pos, s.len());
                assert(line@ =~= rest);
                let ghost before = views(r@);
                r.push(line);
                assert(views(r@) =~= before.push(line@));
                assert(views(r@) =~= before + lines(rest));
                return r;
            },
        }
    }
}

/// End of the word that starts at `k`: the first whitespace at or after `k`.
pub open spec fn word_end(s: Seq<char>, k: int) -> int
    decreases s.len() - k,
{
    if k >= s.len() {
        s.len() as int
    } else if is_ws(s[k]) {
        k
    } else {
        word_end(s, k + 1)
    }
}

pub proof fn lemma_word_end_at(s: Seq<char>, k: int, e: int)
    requires
        0 <= k <= e <= s.len(),
        forall|x: int| k <= x < e ==> !is_ws(#[trigger] s[x]),
        e == s.len() || is_ws(s[e]),
    ensures
        word_end(s, k) == e,
    decreases e - k,
{
    if k < e {
        lemma_word_end_at(s, k + 1, e);
    }
}

pub proof fn lemma_word_end_bounds(s: Seq<char>, k: int)
    requires
        0 <= k,
    ensures
        k <= word_end(s, k) || k > s.len(),
        word_end(s, k) <= s.len(),
        k < s.len() && !is_ws(s[k]) ==> word_end(s, k) > k,
    decreases s.len() - k,
{
    if k < s.len() && !is_ws(s[k]) {
        lemma_word_end_bounds(s, k + 1);
    }
}

/// `str::split_whitespace`: the maximal runs of non-whitespace characters.
pub open spec fn words(s: Seq<char>) -> Seq<Seq<char>>
    decreases s.len(),
{
    let t = trim_start(s);
    if t.len() == 0 {
        seq![]
    } else {
        proof {
            lemma_trim_start_len(s);
            lemma_word_end_bounds(t, 0);
        }
        let e = word_end(t, 0);
        seq![t.take(e)] + words(t.skip(e))
    }
}

/// `str::split_whitespace`.
pub fn words_exec(s: &Vec<char>) -> (r: Vec<Vec<char>>)
    ensures
        views(r@) == words(s@),
{
    let mut r: Vec<Vec<char>> = Vec::new();
    let mut pos: usize = 0;
    assert(s@.skip(0) =~= s@);
    loop
        invariant
            pos <= s.len(),
            views(r@) + words(s@.skip(pos as int)) == words(s@),
        decreases s.len() - pos,
    {
        let ghost rest = s@.skip(pos as int);
        let i = skip_ws(s, pos);
        proof {
            assert forall|k: int| 0 <= k < i - pos implies is_ws(#[trigger] rest[k]) by {
                assert(rest[k] == s@[pos + k]);
            }
            if i < s.len() {
                assert(rest[i - pos] == s@[i as int]);
            }
            lemma_trim_start_at(rest, i - pos);
            assert(rest.skip(i - pos) =~= s@.skip(i as int));
        }
        if i == s.len() {
            assert(views(r@) + words(rest) =~= views(r@));
            return r;
        }
        let mut j = i;
        while j < s.len() && !is_ws_exec(s[j])
            invariant
                i <= j <= s.len(),
                forall|x: int| i <= x < j ==> !is_ws(#[trigger] s@[x]),
            decreases s.len() - j,
        {
            j += 1;
        }
        let ghost t = s@.skip(i as int);
        proof {
            assert forall|x: int| 0 <= x < j - i implies !is_ws(#[trigger] t[x]) by {
                assert(t[x] == s@[i + x]);
            }
            if j < s.len() {
                assert(t[j - i] == s@[j as int]);
            }
            lemma_word_end_at(t, 0, j - i);
            assert(t.skip(j - i) =~= s@.skip(j as int));
        }
        let w = slice(s, i, j);
        assert(w@ =~= t.take(j - i));
        let ghost before = views(r@);
        r.push(w);
        assert(views(r@) =~= before.push(w@));
        pos = j;
        assert(views(r@) + words(s@.skip(pos as int)) =~= before + words(rest));
    }
}

/// First index at or after `k` whose character is one of `cs`.
pub open spec fn find_any_from(s: Seq<char>, cs: Seq<char>, k: int) -> Option<int>
    decreases s.len() - k,
{
    if k < 0 || k >= s.len() {
        None
    } else if cs.contains(s[k]) {
        Some(k)
    } else {
        find_any_from(s, cs, k + 1)
    }
}

pub proof fn lemma_find_any_from(s: Seq<char>, cs: Seq<char>, k: int)
    requires
        0 <= k,
    ensures
        match find_any_from(s, cs, k) {
            Some(i) => k <= i < s.len() && cs.contains(s[i]) && forall|j: int|
                k <= j < i ==> !cs.contains(#[trigger] s[j]),
            None => forall|j: int| k <= j < s.len() ==> !cs.contains(#[trigger] s[j]),
        },
    decreases s.len() - k,
{
    if k < s.len() && !cs.contains(s[k]) {
        lemma_find_any_from(s, cs, k + 1);
    }
}

pub proof fn lemma_find_any_from_skip(s: Seq<char>, cs: Seq<char>, pos: int, k: int)
    requires
        0 <= pos <= s.len(),
        0 <= k,
    ensures
        find_any_from(s.skip(pos), cs, k) == match find_any_from(s, cs, pos + k) {
            Some(i) => Some(i - pos),
            None => None,
        },
    decreases s.len() - (pos + k),
{
    if pos + k < s.len() {
        assert(s.skip(pos)[k] == s[pos + k]);
        if !cs.contains(s[pos + k]) {
            lemma_find_any_from_skip(s, cs, pos, k + 1);
        }
    }
}

/// `str::split` on any of the characters in `cs`.
pub open spec fn split_any(s: Seq<char>, cs: Seq<char>) -> Seq<Seq<char>>
    decreases s.len(),
{
    match find_any_from(s, cs, 0) {
        Some(i) => {
            proof {
                lemma_find_any_from(s, cs, 0);
            }
            seq![s.take(i)] + split_any(s.skip(i + 1), cs)
        },
        None => seq![s],
    }
}

pub fn find_any_exec(s: &Vec<char>, cs: &Vec<char>, k: usize) -> (r: Option<usize>)
    ensures
        match r {
            Some(i) => find_any_from(s@, cs@, k as int) == Some(i as int),
            None => find_any_from(s@, cs@, k as int) is None,
        },
{
    let mut i = k;
    while i < s.len()
        invariant
            k <= i,
            find_any_from(s@, cs@, k as int) == find_any_from(s@, cs@, i as int),
        decreases s.len() - i,
    {
        let mut j: usize = 0;
        let mut hit = false;
        while j < cs.len()
            invariant
                i < s.len(),
                j <= cs.len(),
                hit == exists|x: int| 0 <= x < j && cs@[x] == s@[i as int],
            decreases cs.len() - j,
        {
            if cs[j] == s[i] {
                hit = true;
            }
            j += 1;
        }
        if hit {
            return Some(i);
        }
        i += 1;
    }
    None
}

/// `str::split` on any of the characters in `cs`.
pub fn split_any_exec(s: &Vec<char>, cs: &Vec<char>) -> (r: Vec<Vec<char>>)
    ensures
        views(r@) == split_any(s@, cs@),
{
    let mut r: Vec<Vec<char>> = Vec::new();
    let mut pos: usize = 0;
    assert(s@.skip(0) =~= s@);
    loop
        invariant
            pos <= s.len(),
            views(r@) + split_any(s@.skip(pos as int), cs@) == split_any(s@, cs@),
        decreases s.len() - pos,
    {
        let ghost rest = s@.skip(pos as int);
        proof {
            lemma_find_any_from_skip(s@, cs@, pos as int, 0);
            lemma_find_any_from(s@, cs@, pos as int);
        }
        match find_any_exec(s, cs, pos) {
            Some(i) => {
                assert(find_any_from(rest, cs@, 0) == Some(i - pos));
                let piece = slice(s, pos, i);
                assert(piece@ =~= rest.take(i - pos));
                assert(rest.skip(i - pos + 1) =~= s@.skip(i + 1));
                let ghost before = views(r@);
                r.push(piece);
                assert(views(r@) =~= before.push(piece@));
                pos = i + 1;
                assert(views(r@) + split_any(s@.skip(pos as int), cs@) =~= before + split_any(
                    rest,
                    cs@,
                ));
            },
            None => {
                let piece = slice(s, pos, s.len());
                assert(piece@ =~= rest);
                let ghost before = views(r@);
                r.push(piece);
                assert(views(r@) =~= before.push(piece@));
                assert(views(r@) =~= before + split_any(rest, cs@));
                return r;
            },
        }
    }
}

/// `str::split` on a non-empty pattern.
pub open spec fn split_pat(s: Seq<char>, p: Seq<char>) -> Seq<Seq<char>>
    decreases s.len(),
{
    if p.len() == 0 {
        seq![s]
    } else {
        match find(s, p) {
            Some(i) => {
                proof {
                    lemma_find(s, p);
                }
                seq![s.take(i)] + split_pat(s.skip(i + p.len()), p)
            },
            None => seq![s],
        }
    }
}

/// `str::split` on a non-empty pattern.
pub fn split_pat_exec(s: &Vec<char>, p: &Vec<char>) -> (r: Vec<Vec<char>>)
    requires
        p.len() > 0,
    ensures
        views(r@) == split_pat(s@, p@),
{
    let mut r: Vec<Vec<char>> = Vec::new();
    let mut pos: usize = 0;
    assert(s@.skip(0) =~= s@);
    loop
        invariant
            pos <= s.len(),
            p.len() > 0,
            views(r@) + split_pat(s@.skip(pos as int), p@) == split_pat(s@, p@),
        decreases s.len() - pos,
    {
        let ghost rest = s@.skip(pos as int);
        proof {
            lemma_find_from_skip(s@, p@, pos as int, 0);
            lemma_find_from(s@, p@, pos as int);
        }
        match find_from_exec(s, p, pos) {
            Some(i) => {
                assert(find(rest, p@) == Some(i - pos));
                assert(matches_at(s@, p@, i as int));
                let piece = slice(s, pos, i);
                assert(piece@ =~= rest.take(i - pos));
                assert(rest.skip(i - pos + p@.len()) =~= s@.skip(i + p@.len()));
                let ghost before = views(r@);
                r.push(piece);
                assert(views(r@) =~= before.push(piece@));
                pos = i + p.len();
                assert(views(r@) + split_pat(s@.skip(pos as int), p@) =~= before + split_pat(
                    rest,
                    p@,
                ));
            },
            None => {
                assert(find(rest, p@) is None);
                let piece = slice(s, pos, s.len());
                assert(piece@ =~= rest);
                let ghost before = views(r@);
                r.push(piece);
                assert(views(r@) =~= before.push(piece@));
                assert(views(r@) =~= before + split_pat(rest, p@));
                return r;
            },
        }
    }
}


/// `a` followed by `b`, written into `a`.
pub fn append(a: &mut Vec<char>, b: &Vec<char>)
    ensures
        final(a)@ == old(a)@ + b@,
{
    let mut i: usize = 0;
    let ghost a0 = a@;
    while i < b.len()
        invariant
            i <= b.len(),
            a@ == a0 + b@.take(i as int),
        decreases b.len() - i,
    {
        a.push(b[i]);
        i += 1;
        assert(a@ =~= a0 + b@.take(i as int));
    }
    assert(b@.take(b.len() as int) =~= b@);
}

/// `a` followed by `b`.
pub fn concat(a: &Vec<char>, b: &Vec<char>) -> (r: Vec<char>)
    ensures
        r@ == a@ + b@,
{
    let mut r = a.clone();
    append(&mut r, b);
    r
}

/// `str::replace`: every non-overlapping occurrence of `f`, from the left,
/// replaced by `t`.
pub open spec fn replace(s: Seq<char>, f: Seq<char>, t: Seq<char>) -> Seq<char>
    decreases s.len(),
{
    if f.len() == 0 {
        s
    } else {
        match find(s, f) {
            Some(i) => {
                proof {
                    lemma_find(s, f);
                }
                s.take(i) + t + replace(s.skip(i + f.len()), f, t)
            },
            None => s,
        }
    }
}

/// `str::replace` with a non-empty pattern.
pub fn replace_exec(s: &Vec<char>, f: &Vec<char>, t: &Vec<char>) -> (r: Vec<char>)
    requires
        f.len() > 0,
    ensures
        r@ == replace(s@, f@, t@),
{
    let mut r: Vec<char> = Vec::new();
    let mut pos: usize = 0;
    assert(s@.skip(0) =~= s@);
    loop
        invariant
            pos <= s.len(),
            f.len() > 0,
            r@ + replace(s@.skip(pos as int), f@, t@) == replace(s@, f@, t@),
        decreases s.len() - pos,
    {
        let ghost rest = s@.skip(pos as int);
        proof {
            lemma_find_from_skip(s@, f@, pos as int, 0);
            lemma_find_from(s@, f@, pos as int);
        }
        match find_from_exec(s, f, pos) {
            Some(i) => {
                assert(find(rest, f@) == Some(i - pos));
                assert(matches_at(s@, f@, i as int));
                let piece = slice(s, pos, i);
                assert(piece@ =~= rest.take(i - pos));
                assert(rest.skip(i - pos + f@.len()) =~= s@.skip(i + f@.len()));
                let ghost before = r@;
                append(&mut r, &piece);
                append(&mut r, t);
                pos = i + f.len();
                assert(r@ + replace(s@.skip(pos as int), f@, t@) =~= before + replace(rest, f@, t@));
            },
            None => {
                assert(find(rest, f@) is None);
                let piece = slice(s, pos, s.len());
                assert(piece@ =~= rest);
                append(&mut r, &piece);
                return r;
            },
        }
    }
}

/// `[T]::join`: the parts with `sep` between each two neighbours.
pub open spec fn join(parts: Seq<Seq<char>>, sep: Seq<char>) -> Seq<char>
    decreases parts.len(),
{
    if parts.len() == 0 {
        seq![]
    } else if parts.len() == 1 {
        parts[0]
    } else {
        join(parts.drop_last(), sep) + sep + parts.last()
    }
}

/// `[T]::join`.
pub fn join_exec(parts: &Vec<Vec<char>>, sep: &Vec<char>) -> (r: Vec<char>)
    ensures
        r@ == join(views(parts@), sep@),
{
    let mut r: Vec<char> = Vec::new();
    let mut i: usize = 0;
    while i < parts.len()
        invariant
            i <= parts.len(),
            r@ == join(views(parts@).take(i as int), sep@),
        decreases parts.len() - i,
    {
        let ghost before = views(parts@).take(i as int);
        if i > 0 {
            append(&mut r, sep);
        }
        append(&mut r, &parts[i]);
        i += 1;
        assert(views(parts@).take(i as int).drop_last() =~= before);
        if i == 1 {
            assert(views(parts@).take(1) =~= seq![parts@[0]@]);
        }
    }
    assert(views(parts@).take(parts.len() as int) =~= views(parts@));
    r
}

// ---------------------------------------------------------------------------
// Numbers
// ---------------------------------------------------------------------------

/// The decimal digit character for `d < 10`.
pub open spec fn digit_char(d: nat) -> char {
    (48 + d) as char
}

/// Whether `c` is an ASCII decimal digit.
pub open spec fn is_digit(c: char) -> bool {
    '0' <= c && c <= '9'
}

/// The value of an ASCII decimal digit.
pub open spec fn digit_val(c: char) -> nat {
    (c as u32 - 48) as nat
}

/// The decimal representation of `n`, without leading zeros (`u64` `Display`).
pub open spec fn dec(n: nat) -> Seq<char>
    decreases n,
{
    if n < 10 {
        seq![digit_char(n)]
    } else {
        dec(n / 10).push(digit_char(n % 10))
    }
}

fn digit_exec(d: u128) -> (c: char)
    requires
        d < 10,
    ensures
        c == digit_char(d as nat),
{
    let b: u8 = (48 + d) as u8;
    b as char
}

/// Decimal representation of an unsigned integer.
pub fn dec_exec(n: u128) -> (r: Vec<char>)
    ensures
        r@ == dec(n as nat),
    decreases n,
{
    if n < 10 {
        let mut r: Vec<char> = Vec::new();
        r.push(digit_exec(n));
        assert(r@ =~= seq![digit_char(n as nat)]);
        r
    } else {
        let mut r = dec_exec(n / 10);
        r.push(digit_exec(n % 10));
        r
    }
}

/// Value of a sequence of decimal digits.
pub open spec fn digits_val(s: Seq<char>) -> nat
    decreases s.len(),
{
    if s.len() == 0 {
        0
    } else {
        digits_val(s.drop_last()) * 10 + digit_val(s.last())
    }
}

/// Every character is an ASCII digit.
pub open spec fn all_digits(s: Seq<char>) -> bool {
    forall|i: int| 0 <= i < s.len() ==> is_digit(#[trigger] s[i])
}

/// The text after an optional leading `+`.
pub open spec fn unsigned_digits(s: Seq<char>) -> Seq<char> {
    if s.len() > 0 && s[0] == '+' {
        s.drop_first()
    } else {
        s
    }
}

/// `u64::from_str`: an optional `+` and one or more decimal digits whose
/// value fits in 64 bits.
pub open spec fn parse_u64(s: Seq<char>) -> Option<u64> {
    let d = unsigned_digits(s);
    if d.len() > 0 && all_digits(d) && digits_val(d) <= u64::MAX {
        Some(digits_val(d) as u64)
    } else {
        None
    }
}

pub proof fn lemma_digits_val_prefix(s: Seq<char>, i: int)
    requires
        0 <= i <= s.len(),
    ensures
        digits_val(s.take(i)) <= digits_val(s),
    decreases s.len() - i,
{
    if i < s.len() {
        lemma_digits_val_prefix(s, i + 1);
        assert(s.take(i + 1).drop_last() =~= s.take(i));
    } else {
        assert(s.take(i) =~= s);
    }
}

/// `u64::from_str`.
pub fn parse_u64_exec(s: &Vec<char>) -> (r: Option<u64>)
    ensures
        r == parse_u64(s@),
{
    let start: usize = if s.len() > 0 && s[0] == '+' {
        1
    } else {
        0
    };
    let ghost d = unsigned_digits(s@);
    assert(d =~= s@.skip(start as int));
    if start == s.len() {
        return None;
    }
    let mut acc: u64 = 0;
    let mut i = start;
    while i < s.len()
        invariant
            start <= i <= s.len(),
            d == s@.skip(start as int),
            d == unsigned_digits(s@),
            all_digits(d.take(i - start)),
            acc as nat == digits_val(d.take(i - start)),
        decreases s.len() - i,
    {
        let c = s[i];
        if !('0' <= c && c <= '9') {
            assert(d[i - start] == c);
            assert(!is_digit(d[i - start]));
            assert(!all_digits(d));
            assert(parse_u64(s@) is None);
            return None;
        }
        let dv = (c as u32 - 48) as u64;
        assert(d.take(i - start + 1).drop_last() =~= d.take(i - start));
        assert(d.take(i - start + 1).last() == c);
        if acc > (u64::MAX - dv) / 10 {
            proof {
                lemma_digits_val_prefix(d, i - start + 1);
                assert(digit_val(c) == dv);
                assert(digits_val(d.take(i - start + 1)) == digits_val(d.take(i - start)) * 10
                    + digit_val(c));
            }
            assert(digits_val(d.take(i - start + 1)) > u64::MAX) by (nonlinear_arith)
                requires
                    acc > (u64::MAX - dv) / 10,
                    digits_val(d.take(i - start + 1)) == acc * 10 + dv,
                    dv <= 9,
            ;
            return None;
        }
        acc = acc * 10 + dv;
        i += 1;
        assert(all_digits(d.take(i - start)));
    }
    assert(d.take(i - start) =~= d);
    Some(acc)
}

/// Lower-case ASCII letter for an upper-case one; any other character as is.
pub open spec fn ascii_lower(c: char) -> char {
    if 'A' <= c && c <= 'Z' {
        ((c as u32) + 32) as char
    } else {
        c
    }
}

/// `str::to_ascii_lowercase`.
pub fn ascii_lower_exec(s: &Vec<char>) -> (r: Vec<char>)
    ensures
        r@ == s@.map_values(|c: char| ascii_lower(c)),
{
    let mut r: Vec<char> = Vec::new();
    let mut i: usize = 0;
    while i < s.len()
        invariant
            i <= s.len(),
            r@ == s@.take(i as int).map_values(|c: char| ascii_lower(c)),
        decreases s.len() - i,
    {
        let c = s[i];
        let l = if 'A' <= c && c <= 'Z' {
            let b: u8 = (c as u32 + 32) as u8;
            b as char
        } else {
            c
        };
        r.push(l);
        i += 1;
        assert(r@ =~= s@.take(i as int).map_values(|c: char| ascii_lower(c)));
    }
    assert(s@.take(s.len() as int) =~= s@);
    r
}

// ---------------------------------------------------------------------------
// Trimming a given character, optional values, prefixed items
// ---------------------------------------------------------------------------

/// `s` without any leading `c`.
pub open spec fn trim_start_char(s: Seq<char>, c: char) -> Seq<char>
    decreases s.len(),
{
    if s.len() > 0 && s[0] == c {
        trim_start_char(s.drop_first(), c)
    } else {
        s
    }
}

/// `s` without any trailing `c`.
pub open spec fn trim_end_char(s: Seq<char>, c: char) -> Seq<char>
    decreases s.len(),
{
    if s.len() > 0 && s.last() == c {
        trim_end_char(s.drop_last(), c)
    } else {
        s
    }
}

/// `str::trim_matches` with one character: `s` without leading and trailing `c`.
pub open spec fn trim_matches_char(s: Seq<char>, c: char) -> Seq<char> {
    trim_end_char(trim_start_char(s, c), c)
}

/// `str::trim_start_matches` with one character.
pub fn trim_start_char_exec(s: &Vec<char>, c: char) -> (r: Vec<char>)
    ensures
        r@ == trim_start_char(s@, c),
{
    let mut i: usize = 0;
    assert(s@.skip(0) =~= s@);
    while i < s.len() && s[i] == c
        invariant
            i <= s.len(),
            trim_start_char(s@, c) == trim_start_char(s@.skip(i as int), c),
        decreases s.len() - i,
    {
        assert(s@.skip(i as int).drop_first() =~= s@.skip(i + 1));
        i += 1;
    }
    let r = slice(s, i, s.len());
    assert(r@ =~= s@.skip(i as int));
    r
}

/// `str::trim_end_matches` with one character.
pub fn trim_end_char_exec(s: &Vec<char>, c: char) -> (r: Vec<char>)
    ensures
        r@ == trim_end_char(s@, c),
{
    let mut j: usize = s.len();
    assert(s@.take(j as int) =~= s@);
    while j > 0 && s[j - 1] == c
        invariant
            j <= s.len(),
            trim_end_char(s@, c) == trim_end_char(s@.take(j as int), c),
        decreases j,
    {
        assert(s@.take(j as int).drop_last() =~= s@.take(j - 1));
        j -= 1;
    }
    let r = slice(s, 0, j);
    assert(r@ =~= s@.take(j as int));
    r
}

/// `str::trim_matches` with one character.
pub fn trim_matches_exec(s: &Vec<char>, c: char) -> (r: Vec<char>)
    ensures
        r@ == trim_matches_char(s@, c),
{
    let t = trim_start_char_exec(s, c);
    trim_end_char_exec(&t, c)
}

/// The character sequence of an optional string.
pub open spec fn opt_view(o: Option<String>) -> Option<Seq<char>> {
    match o {
        Some(s) => Some(s@),
        None => None,
    }
}

/// The first of `parts` that starts with `p`, without that prefix.
pub open spec fn first_stripped(parts: Seq<Seq<char>>, p: Seq<char>) -> Option<Seq<char>>
    decreases parts.len(),
{
    if parts.len() == 0 {
        None
    } else {
        match strip_prefix(parts[0], p) {
            Some(rest) => Some(rest),
            None => first_stripped(parts.drop_first(), p),
        }
    }
}

/// The first of `parts` that starts with `p`, without that prefix.
pub fn first_stripped_exec(parts: &Vec<Vec<char>>, p: &Vec<char>) -> (r: Option<Vec<char>>)
    ensures
        match r {
            Some(x) => first_stripped(views(parts@), p@) == Some(x@),
            None => first_stripped(views(parts@), p@) is None,
        },
{
    let mut i: usize = 0;
    assert(views(parts@).skip(0) =~= views(parts@));
    while i < parts.len()
        invariant
            i <= parts.len(),
            first_stripped(views(parts@), p@) == first_stripped(views(parts@).skip(i as int), p@),
        decreases parts.len() - i,
    {
        assert(views(parts@).skip(i as int)[0] == parts@[i as int]@);
        assert(views(parts@).skip(i as int).drop_first() =~= views(parts@).skip(i + 1));
        match strip_prefix_exec(&parts[i], p) {
            Some(rest) => {
                return Some(rest);
            },
            None => {},
        }
        i += 1;
    }
    None
}

/// The string holding the characters of an optional sequence.
pub fn opt_string(o: Option<Vec<char>>) -> (r: Option<String>)
    ensures
        opt_view(r) == match o {
            Some(v) => Some(v@),
            None => None::<Seq<char>>,
        },
{
    match o {
        Some(v) => Some(string_of(&v)),
        None => None,
    }
}

/// Whether one of `v` holds exactly the characters of `x`.
pub fn contains_seq_exec(v: &Vec<Vec<char>>, x: &Vec<char>) -> (b: bool)
    ensures
        b == views(v@).contains(x@),
{
    let mut i: usize = 0;
    while i < v.len()
        invariant
            i <= v.len(),
            forall|j: int| 0 <= j < i ==> views(v@)[j] != x@,
        decreases v.len() - i,
    {
        if eq_exec(&v[i], x) {
            assert(views(v@)[i as int] == x@);
            return true;
        }
        i += 1;
    }
    assert forall|j: int| 0 <= j < views(v@).len() implies views(v@)[j] != x@ by {}
    false
}

/// `s` without every leading repetition of `p` (`str::trim_start_matches`).
pub open spec fn strip_all_prefix(s: Seq<char>, p: Seq<char>) -> Seq<char>
    decreases s.len(),
{
    if p.len() > 0 && starts_with(s, p) {
        strip_all_prefix(s.skip(p.len() as int), p)
    } else {
        s
    }
}

/// `str::trim_start_matches` with a string pattern.
pub fn strip_all_prefix_exec(s: &Vec<char>, p: &Vec<char>) -> (r: Vec<char>)
    ensures
        r@ == strip_all_prefix(s@, p@),
{
    let mut cur = s.clone();
    loop
        invariant
            strip_all_prefix(s@, p@) == strip_all_prefix(cur@, p@),
        decreases cur.len(),
    {
        if p.len() > 0 && starts_with_exec(&cur, p) {
            cur = slice(&cur, p.len(), cur.len());
        } else {
            return cur;
        }
    }
}

/// `u64::saturating_mul`.
pub fn mul_saturating(a: u64, b: u64) -> (r: u64)
    ensures
        r == (if a * b > u64::MAX {
            u64::MAX as int
        } else {
            a * b
        }),
{
    match a.checked_mul(b) {
        Some(x) => x,
        None => u64::MAX,
    }
}

/// `s` without any leading character from `cs`.
pub open spec fn trim_start_any(s: Seq<char>, cs: Seq<char>) -> Seq<char>
    decreases s.len(),
{
    if s.len() > 0 && cs.contains(s[0]) {
        trim_start_any(s.drop_first(), cs)
    } else {
        s
    }
}

/// `s` without any trailing character from `cs`.
pub open spec fn trim_end_any(s: Seq<char>, cs: Seq<char>) -> Seq<char>
    decreases s.len(),
{
    if s.len() > 0 && cs.contains(s.last()) {
        trim_end_any(s.drop_last(), cs)
    } else {
        s
    }
}

/// `str::trim_matches` with a set of characters.
pub open spec fn trim_any(s: Seq<char>, cs: Seq<char>) -> Seq<char> {
    trim_end_any(trim_start_any(s, cs), cs)
}

fn char_in(cs: &Vec<char>, c: char) -> (b: bool)
    ensures
        b == cs@.contains(c),
{
    let mut i: usize = 0;
    while i < cs.len()
        invariant
            i <= cs.len(),
            forall|j: int| 0 <= j < i ==> cs@[j] != c,
        decreases cs.len() - i,
    {
        if cs[i] == c {
            assert(cs@[i as int] == c);
            return true;
        }
        i += 1;
    }
    false
}

/// `str::trim_matches` with a set of characters.
pub fn trim_any_exec(s: &Vec<char>, cs: &Vec<char>) -> (r: Vec<char>)
    ensures
        r@ == trim_any(s@, cs@),
{
    let mut i: usize = 0;
    assert(s@.skip(0) =~= s@);
    while i < s.len() && char_in(cs, s[i])
        invariant
            i <= s.len(),
            trim_start_any(s@, cs@) == trim_start_any(s@.skip(i as int), cs@),
        decreases s.len() - i,
    {
        assert(s@.skip(i as int).drop_first() =~= s@.skip(i + 1));
        i += 1;
    }
    let t = slice(s, i, s.len());
    assert(t@ =~= s@.skip(i as int));
    let mut j: usize = t.len();
    assert(t@.take(j as int) =~= t@);
    while j > 0 && char_in(cs, t[j - 1])
        invariant
            j <= t.len(),
            trim_end_any(t@, cs@) == trim_end_any(t@.take(j as int), cs@),
        decreases j,
    {
        assert(t@.take(j as int).drop_last() =~= t@.take(j - 1));
        j -= 1;
    }
    let r = slice(&t, 0, j);
    assert(r@ =~= t@.take(j as int));
    r
}

/// `u8::from_str`.
pub open spec fn parse_u8(s: Seq<char>) -> Option<u8> {
    match parse_u64(s) {
        Some(v) => if v <= 255 {
            Some(v as u8)
        } else {
            None
        },
        None => None,
    }
}

/// `u8::from_str`.
pub fn parse_u8_exec(s: &Vec<char>) -> (r: Option<u8>)
    ensures
        r == parse_u8(s@),
{
    match parse_u64_exec(s) {
        Some(v) => if v <= 255 {
            Some(v as u8)
        } else {
            None
        },
        None => None,
    }
}

/// Whether every character is ASCII.
pub open spec fn all_ascii(s: Seq<char>) -> bool {
    forall|i: int| 0 <= i < s.len() ==> (#[trigger] s[i] as u32) < 128
}

/// What `str::to_lowercase` returns for a string.
pub uninterp spec fn lowercase_of(s: Seq<char>) -> Seq<char>;

/// `str::to_lowercase`: the Unicode lower case of `s`. Its value is named,
/// not stated, since it follows Unicode's case tables; stated is only that an
/// ASCII string is lowered letter by letter, as for `to_ascii_lowercase`.
#[verifier::external_body]
pub(crate) fn to_lowercase(s: &str) -> (r: String)
    ensures
        r@ == lowercase_of(s@),
        all_ascii(s@) ==> r@ == s@.map_values(|c: char| ascii_lower(c)),
{
    s.to_lowercase()
}

/// Upper-case ASCII letter for a lower-case one; any other character as is.
pub open spec fn ascii_upper(c: char) -> char {
    if 'a' <= c && c <= 'z' {
        ((c as u32) - 32) as char
    } else {
        c
    }
}

/// `str::to_ascii_uppercase`.
pub fn ascii_upper_exec(s: &Vec<char>) -> (r: Vec<char>)
    ensures
        r@ == s@.map_values(|c: char| ascii_upper(c)),
{
    let mut r: Vec<char> = Vec::new();
    let mut i: usize = 0;
    while i < s.len()
        invariant
            i <= s.len(),
            r@ == s@.take(i as int).map_values(|c: char| ascii_upper(c)),
        decreases s.len() - i,
    {
        let c = s[i];
        let u = if 'a' <= c && c <= 'z' {
            let b: u8 = (c as u32 - 32) as u8;
            b as char
        } else {
            c
        };
        r.push(u);
        i += 1;
        assert(r@ =~= s@.take(i as int).map_values(|c: char| ascii_upper(c)));
    }
    assert(s@.take(s.len() as int) =~= s@);
    r
}

// ---------------------------------------------------------------------------
// Facts about trimming and lines
// ---------------------------------------------------------------------------

/// `trim_end` keeps a prefix that ends in a non-whitespace character.
pub proof fn lemma_trim_end_prefix(s: Seq<char>)
    ensures
        trim_end(s).len() <= s.len(),
        trim_end(s) == s.take(trim_end(s).len() as int),
        trim_end(s).len() == 0 || !is_ws(trim_end(s).last()),
    decreases s.len(),
{
    if s.len() > 0 && is_ws(s.last()) {
        lemma_trim_end_prefix(s.drop_last());
        let t = trim_end(s.drop_last());
        assert(s.drop_last().take(t.len() as int) =~= s.take(t.len() as int));
    } else {
        assert(s.take(s.len() as int) =~= s);
    }
}

/// `trim_end` keeps every character up to the last non-whitespace one.
pub proof fn lemma_trim_end_keeps(s: Seq<char>, i: int)
    requires
        0 <= i < s.len(),
        !is_ws(s[i]),
    ensures
        trim_end(s).len() > i,
    decreases s.len(),
{
    if is_ws(s.last()) {
        assert(i < s.len() - 1);
        assert(s.drop_last()[i] == s[i]);
        lemma_trim_end_keeps(s.drop_last(), i);
    }
}

/// Trimming the end twice is trimming it once.
pub proof fn lemma_trim_end_idem(s: Seq<char>)
    ensures
        trim_end(trim_end(s)) == trim_end(s),
{
    lemma_trim_end_prefix(s);
}

/// Whitespace added at the end is trimmed away.
pub proof fn lemma_trim_end_push_ws(s: Seq<char>, c: char)
    requires
        is_ws(c),
    ensures
        trim_end(s.push(c)) == trim_end(s),
{
    assert(s.push(c).drop_last() =~= s);
}

/// Trimming the end of a concatenation: the second part trimmed when
/// something of it is left, otherwise the first part trimmed.
pub proof fn lemma_trim_end_concat(a: Seq<char>, b: Seq<char>)
    ensures
        trim_end(a + b) == (if trim_end(b).len() > 0 {
            a + trim_end(b)
        } else {
            trim_end(a)
        }),
    decreases b.len(),
{
    if b.len() == 0 {
        assert(a + b =~= a);
    } else if is_ws(b.last()) {
        lemma_trim_end_concat(a, b.drop_last());
        assert((a + b).drop_last() =~= a + b.drop_last());
        assert((a + b).last() == b.last());
    } else {
        assert((a + b).last() == b.last());
    }
}

/// Trimming the start and trimming the end commute.
pub proof fn lemma_trim_commute(x: Seq<char>)
    ensures
        trim_end(trim_start(x)) == trim_start(trim_end(x)),
    decreases x.len(),
{
    if x.len() == 0 {
    } else if is_ws(x[0]) {
        let d = x.drop_first();
        lemma_trim_commute(d);
        assert(trim_start(x) == trim_start(d));
        assert(x =~= seq![x[0]] + d);
        lemma_trim_end_concat(seq![x[0]], d);
        let te = trim_end(d);
        if te.len() > 0 {
            let y = seq![x[0]] + te;
            assert(y[0] == x[0]);
            assert(y.drop_first() =~= te);
            assert(trim_start(y) == trim_start(te));
        } else {
            let one = seq![x[0]];
            assert(one.last() == x[0]);
            assert(one.drop_last() =~= Seq::<char>::empty());
            assert(trim_end(Seq::<char>::empty()) == Seq::<char>::empty());
            assert(trim_end(one) == trim_end(one.drop_last()));
            assert(trim_end(x) == Seq::<char>::empty());
            assert(trim_start(te) == te);
        }
    } else {
        lemma_trim_end_keeps(x, 0);
        lemma_trim_end_prefix(x);
        assert(trim_end(x)[0] == x[0]);
        assert(trim_start(x) == x);
    }
}

/// Trimming a text whose end was already trimmed changes nothing more.
pub proof fn lemma_trim_of_trim_end(x: Seq<char>)
    ensures
        trim(trim_end(x)) == trim(x),
{
    lemma_trim_commute(x);
    lemma_trim_commute(trim_end(x));
    lemma_trim_end_idem(x);
}

/// A carriage return at the end is trimmed like any whitespace.
pub proof fn lemma_trim_strip_cr(x: Seq<char>)
    ensures
        trim(strip_cr(x)) == trim(x),
{
    if x.len() > 0 && x.last() == '\r' {
        assert(strip_cr(x).push('\r') =~= x);
        lemma_trim_end_push_ws(strip_cr(x), '\r');
        lemma_trim_commute(x);
        lemma_trim_commute(strip_cr(x));
    }
}

/// `find` gives the first match.
pub proof fn lemma_find_first(s: Seq<char>, p: Seq<char>, i: int)
    requires
        matches_at(s, p, i),
        forall|j: int| 0 <= j < i ==> !#[trigger] matches_at(s, p, j),
    ensures
        find(s, p) == Some(i),
{
    lemma_find(s, p);
    match find(s, p) {
        Some(k) => {
            if k < i {
                assert(!matches_at(s, p, k));
            } else if k > i {
                assert(!matches_at(s, p, i));
            }
        },
        None => {
            assert(!matches_at(s, p, i));
        },
    }
}

/// The lines of a text that ends with a line ending, followed by more
/// text, are its lines followed by those of the rest.
pub proof fn lemma_lines_append(p: Seq<char>, q: Seq<char>)
    requires
        p.len() == 0 || p.last() == '\n',
    ensures
        lines(p + q) == lines(p) + lines(q),
    decreases p.len(),
{
    let nl = seq!['\n'];
    if p.len() == 0 {
        assert(p + q =~= q);
        assert(lines(p) + lines(q) =~= lines(q));
    } else {
        lemma_find(p, nl);
        assert(p.subrange(p.len() - 1, p.len() as int) =~= nl);
        assert(matches_at(p, nl, p.len() - 1));
        let i = find(p, nl)->Some_0;
        assert(p.subrange(i, i + 1) =~= (p + q).subrange(i, i + 1));
        assert forall|j: int| 0 <= j < i implies !#[trigger] matches_at(p + q, nl, j) by {
            assert(p.subrange(j, j + 1) =~= (p + q).subrange(j, j + 1));
            assert(!matches_at(p, nl, j));
        }
        lemma_find_first(p + q, nl, i);
        let r = p.skip(i + 1);
        assert((p + q).take(i) =~= p.take(i));
        assert((p + q).skip(i + 1) =~= r + q);
        if r.len() > 0 {
            assert(r.last() == p.last());
        }
        lemma_lines_append(r, q);
        assert(lines(p + q) =~= lines(p) + lines(q));
    }
}

/// A piece without line endings followed by a line ending is one line.
pub proof fn lemma_lines_line(x: Seq<char>, w: Seq<char>)
    requires
        forall|k: int| 0 <= k < x.len() ==> x[k] != '\n',
    ensures
        lines(x + seq!['\n'] + w) == seq![strip_cr(x)] + lines(w),
{
    let s = x + seq!['\n'] + w;
    let nl = seq!['\n'];
    assert(s.subrange(x.len() as int, x.len() + 1int) =~= nl);
    assert forall|j: int| 0 <= j < x.len() implies !#[trigger] matches_at(s, nl, j) by {
        assert(s.subrange(j, j + 1)[0] == x[j]);
    }
    lemma_find_first(s, nl, x.len() as int);
    assert(s.take(x.len() as int) =~= x);
    assert(s.skip(x.len() + 1int) =~= w);
}

/// Where line `k` of a text lies: the text is what comes before it (empty
/// or ending with a line ending), the line's piece (without line endings,
/// trimming to what the line trims to), and what follows (empty or starting
/// with a line ending).
pub proof fn lemma_line_split(s: Seq<char>, k: int) -> (r: (Seq<char>, Seq<char>, Seq<char>))
    requires
        0 <= k < lines(s).len(),
    ensures
        s == r.0 + r.1 + r.2,
        r.0.len() == 0 || r.0.last() == '\n',
        forall|j: int| 0 <= j < r.1.len() ==> r.1[j] != '\n',
        r.2.len() == 0 || r.2[0] == '\n',
        trim(lines(s)[k]) == trim(r.1),
    decreases s.len(),
{
    let nl = seq!['\n'];
    assert(s.len() > 0);
    lemma_find(s, nl);
    match find(s, nl) {
        Some(i) => {
            assert forall|j: int| 0 <= j < i implies s.take(i)[j] != '\n' by {
                assert(s.take(i)[j] == s[j]);
                if s[j] == '\n' {
                    assert(s.subrange(j, j + 1) =~= nl);
                }
                assert(!matches_at(s, nl, j));
            }
            assert(s.subrange(i, i + 1)[0] == s[i]);
            assert(lines(s) == seq![strip_cr(s.take(i))] + lines(s.skip(i + 1)));
            if k == 0 {
                assert(s =~= Seq::<char>::empty() + s.take(i) + s.skip(i));
                lemma_trim_strip_cr(s.take(i));
                (Seq::<char>::empty(), s.take(i), s.skip(i))
            } else {
                let rest = s.skip(i + 1);
                assert(lines(s)[k] == lines(rest)[k - 1]);
                let (p, seg, tail) = lemma_line_split(rest, k - 1);
                let pre = s.take(i + 1) + p;
                assert(s =~= s.take(i + 1) + rest);
                assert(rest == p + seg + tail);
                assert(s.take(i + 1) + (p + seg + tail) =~= pre + seg + tail);
                if p.len() == 0 {
                    assert(pre.last() == s[i]);
                } else {
                    assert(pre.last() == p.last());
                }
                (pre, seg, tail)
            }
        },
        None => {
            assert forall|j: int| 0 <= j < s.len() implies s[j] != '\n' by {
                if s[j] == '\n' {
                    assert(s.subrange(j, j + 1) =~= nl);
                }
                assert(!matches_at(s, nl, j));
            }
            assert(lines(s) == seq![s]);
            assert(s =~= Seq::<char>::empty() + s + Seq::<char>::empty());
            (Seq::<char>::empty(), s, Seq::<char>::empty())
        },
    }
}

/// No line holds a line ending.
pub proof fn lemma_lines_no_newline(s: Seq<char>)
    ensures
        forall|k: int, j: int|
            0 <= k < lines(s).len() && 0 <= j < lines(s)[k].len() ==> lines(s)[k][j] != '\n',
    decreases s.len(),
{
    let nl = seq!['\n'];
    if s.len() > 0 {
        lemma_find(s, nl);
        match find(s, nl) {
            Some(i) => {
                lemma_lines_no_newline(s.skip(i + 1));
                let first = strip_cr(s.take(i));
                assert forall|j: int| 0 <= j < first.len() implies first[j] != '\n' by {
                    assert(first[j] == s[j]);
                    if s[j] == '\n' {
                        assert(s.subrange(j, j + 1) =~= nl);
                    }
                    assert(!matches_at(s, nl, j));
                }
                let ls = lines(s);
                assert(ls == seq![first] + lines(s.skip(i + 1)));
                assert forall|k: int, j: int|
                    0 <= k < ls.len() && 0 <= j < ls[k].len() implies ls[k][j] != '\n' by {
                    if k > 0 {
                        assert(ls[k] == lines(s.skip(i + 1))[k - 1]);
                    }
                }
            },
            None => {
                assert forall|j: int| 0 <= j < s.len() implies s[j] != '\n' by {
                    if s[j] == '\n' {
                        assert(s.subrange(j, j + 1) =~= nl);
                    }
                    assert(!matches_at(s, nl, j));
                }
                assert(lines(s) == seq![s]);
            },
        }
    }
}

/// Joining pieces without line endings and ending the last one gives back
/// the pieces as lines (each without a carriage return at its end).
pub proof fn lemma_lines_of_join(ks: Seq<Seq<char>>)
    requires
        ks.len() > 0,
        forall|k: int, j: int| 0 <= k < ks.len() && 0 <= j < ks[k].len() ==> ks[k][j] != '\n',
    ensures
        lines(join(ks, seq!['\n']) + seq!['\n']) == ks.map_values(|k: Seq<char>| strip_cr(k)),
    decreases ks.len(),
{
    let nl = seq!['\n'];
    let last = ks.last();
    assert forall|j: int| 0 <= j < last.len() implies last[j] != '\n' by {
        assert(ks[ks.len() - 1][j] != '\n');
    }
    if ks.len() == 1 {
        lemma_lines_line(last, Seq::<char>::empty());
        assert(join(ks, nl) == ks[0]);
        assert(join(ks, nl) + nl =~= last + nl + Seq::<char>::empty());
        assert(lines(Seq::<char>::empty()) == Seq::<Seq<char>>::empty());
        assert(ks.map_values(|k: Seq<char>| strip_cr(k)) =~= seq![strip_cr(last)]);
    } else {
        let front = ks.drop_last();
        assert forall|k: int, j: int|
            0 <= k < front.len() && 0 <= j < front[k].len() implies front[k][j] != '\n' by {
            assert(front[k] == ks[k]);
        }
        lemma_lines_of_join(front);
        let p = join(front, nl) + nl;
        assert(join(ks, nl) == join(front, nl) + nl + last);
        assert(join(ks, nl) + nl =~= p + (last + nl + Seq::<char>::empty()));
        lemma_lines_append(p, last + nl + Seq::<char>::empty());
        lemma_lines_line(last, Seq::<char>::empty());
        assert(lines(Seq::<char>::empty()) == Seq::<Seq<char>>::empty());
        assert(ks.map_values(|k: Seq<char>| strip_cr(k)) =~= front.map_values(
            |k: Seq<char>| strip_cr(k),
        ).push(strip_cr(last)));
    }
}


// ---------------------------------------------------------------------------
// Occurrences in pieces of a text
// ---------------------------------------------------------------------------

/// An occurrence in a piece of a text is an occurrence in the text.
pub proof fn lemma_contains_sub(x: Seq<char>, a: int, b: int, m: Seq<char>)
    requires
        0 <= a <= b <= x.len(),
        contains(x.subrange(a, b), m),
    ensures
        contains(x, m),
{
    let y = x.subrange(a, b);
    lemma_find(y, m);
    let i = find(y, m)->Some_0;
    assert(x.subrange(a + i, a + i + m.len()) =~= y.subrange(i, i + m.len()));
    assert(matches_at(x, m, a + i));
    lemma_find(x, m);
}

/// A pattern without line endings that occurs in two texts joined by a line
/// ending occurs in one of them.
pub proof fn lemma_contains_split(a: Seq<char>, b: Seq<char>, m: Seq<char>)
    requires
        forall|j: int| 0 <= j < m.len() ==> m[j] != '\n',
        contains(a + seq!['\n'] + b, m),
    ensures
        contains(a, m) || contains(b, m),
{
    let x = a + seq!['\n'] + b;
    lemma_find(x, m);
    let i = find(x, m)->Some_0;
    if i + m.len() <= a.len() {
        assert(a.subrange(i, i + m.len()) =~= x.subrange(i, i + m.len()));
        assert(matches_at(a, m, i));
        lemma_find(a, m);
    } else if i > a.len() {
        let k = i - a.len() - 1;
        assert(b.subrange(k, k + m.len()) =~= x.subrange(i, i + m.len()));
        assert(matches_at(b, m, k));
        lemma_find(b, m);
    } else {
        let j = a.len() - i;
        assert(x.subrange(i, i + m.len())[j] == x[a.len() as int]);
        assert(m[j] == '\n');
    }
}

/// `trim_start` drops a run of leading whitespace.
pub proof fn lemma_trim_start_suffix(s: Seq<char>)
    ensures
        trim_start(s).len() <= s.len(),
        trim_start(s) == s.skip(s.len() - trim_start(s).len()),
        forall|k: int| 0 <= k < s.len() - trim_start(s).len() ==> is_ws(#[trigger] s[k]),
    decreases s.len(),
{
    if s.len() > 0 && is_ws(s[0]) {
        let d = s.drop_first();
        lemma_trim_start_suffix(d);
        assert(d.skip(d.len() - trim_start(d).len()) =~= s.skip(s.len() - trim_start(s).len()));
        assert forall|k: int| 0 <= k < s.len() - trim_start(s).len() implies is_ws(
            #[trigger] s[k],
        ) by {
            if k > 0 {
                assert(s[k] == d[k - 1]);
            }
        }
    } else {
        assert(s.skip(0) =~= s);
    }
}

/// The trimmed text is a piece of the text: where it starts and ends.
pub proof fn lemma_trim_piece(x: Seq<char>) -> (r: (int, int))
    ensures
        0 <= r.0 <= r.1 <= x.len(),
        trim(x) == x.subrange(r.0, r.1),
        forall|k: int| 0 <= k < r.0 ==> is_ws(#[trigger] x[k]),
        forall|k: int| 0 <= k < x.len() && !is_ws(x[k]) ==> r.0 <= k,
{
    lemma_trim_start_suffix(x);
    let z = trim_start(x);
    let st = x.len() - z.len();
    lemma_trim_end_prefix(z);
    let e = trim_end(z).len() as int;
    assert(trim(x) =~= x.subrange(st, st + e));
    (st, st + e)
}

/// A pattern that starts and ends with non-whitespace and occurs in a text
/// occurs in the trimmed text.
pub proof fn lemma_contains_trim(x: Seq<char>, m: Seq<char>)
    requires
        m.len() > 0,
        !is_ws(m[0]),
        !is_ws(m.last()),
        contains(x, m),
    ensures
        contains(trim(x), m),
{
    lemma_find(x, m);
    let i = find(x, m)->Some_0;
    assert(x.subrange(i, i + m.len())[0] == x[i]);
    assert(x.subrange(i, i + m.len())[m.len() - 1] == x[i + m.len() - 1]);
    lemma_trim_start_suffix(x);
    let z = trim_start(x);
    let st = x.len() - z.len();
    if i < st {
        assert(is_ws(x[i]));
    }
    let li = i - st + m.len() - 1;
    assert(z[li] == x[i + m.len() - 1]);
    lemma_trim_end_keeps(z, li);
    lemma_trim_end_prefix(z);
    let w = trim_end(z);
    assert(w.subrange(i - st, i - st + m.len()) =~= x.subrange(i, i + m.len()));
    assert(matches_at(w, m, i - st));
    lemma_find(w, m);
}

/// An occurrence in the trimmed text is an occurrence in the text.
pub proof fn lemma_contains_of_trim(x: Seq<char>, m: Seq<char>)
    requires
        contains(trim(x), m),
    ensures
        contains(x, m),
{
    let (a, b) = lemma_trim_piece(x);
    lemma_contains_sub(x, a, b, m);
}

/// A character that the pattern has and the text lacks keeps the pattern out.
pub proof fn lemma_contains_absent(x: Seq<char>, m: Seq<char>, j: int)
    requires
        0 <= j < m.len(),
        forall|k: int| 0 <= k < x.len() ==> x[k] != m[j],
    ensures
        !contains(x, m),
{
    lemma_find(x, m);
    if let Some(i) = find(x, m) {
        assert(x.subrange(i, i + m.len())[j] == x[i + j]);
    }
}

// ---------------------------------------------------------------------------
// Carriage returns before line feeds
// ---------------------------------------------------------------------------

/// Some carriage return stands right before a line feed.
pub open spec fn has_crlf(x: Seq<char>) -> bool {
    exists|i: int| 0 <= i < x.len() - 1 && #[trigger] x[i] == '\r' && x[i + 1] == '\n'
}

/// A piece of a text without `"\r\n"` has none.
pub proof fn lemma_crlf_sub(x: Seq<char>, a: int, b: int)
    requires
        0 <= a <= b <= x.len(),
        !has_crlf(x),
    ensures
        !has_crlf(x.subrange(a, b)),
{
    let y = x.subrange(a, b);
    if has_crlf(y) {
        let i = choose|i: int| 0 <= i < y.len() - 1 && #[trigger] y[i] == '\r' && y[i + 1] == '\n';
        assert(x[a + i] == y[i] && x[a + i + 1] == y[i + 1]);
    }
}

/// Two texts without `"\r\n"` joined so that none forms at the seam.
pub proof fn lemma_crlf_concat(a: Seq<char>, b: Seq<char>)
    requires
        !has_crlf(a),
        !has_crlf(b),
        a.len() == 0 || b.len() == 0 || a.last() != '\r' || b[0] != '\n',
    ensures
        !has_crlf(a + b),
{
    let x = a + b;
    if has_crlf(x) {
        let i = choose|i: int| 0 <= i < x.len() - 1 && #[trigger] x[i] == '\r' && x[i + 1] == '\n';
        if i + 1 < a.len() {
            assert(a[i] == x[i] && a[i + 1] == x[i + 1]);
        } else if i >= a.len() {
            assert(b[i - a.len()] == x[i] && b[i - a.len() + 1] == x[i + 1]);
        } else {
            assert(a.last() == x[i] && b[0] == x[i + 1]);
        }
    }
}

/// `join` of a first part and the rest.
pub proof fn lemma_join_front(a: Seq<char>, rest: Seq<Seq<char>>, sep: Seq<char>)
    requires
        rest.len() > 0,
    ensures
        join(seq![a] + rest, sep) == a + sep + join(rest, sep),
    decreases rest.len(),
{
    let all = seq![a] + rest;
    if rest.len() == 1 {
        assert(all.drop_last() =~= seq![a]);
        assert(all.last() == rest[0]);
        assert(join(seq![a], sep) == a);
        assert(join(rest, sep) == rest[0]);
        assert(join(all, sep) == join(all.drop_last(), sep) + sep + all.last());
    } else {
        lemma_join_front(a, rest.drop_last(), sep);
        assert(all.drop_last() =~= seq![a] + rest.drop_last());
        assert(all.last() == rest.last());
        assert(join(all, sep) =~= a + sep + join(rest, sep));
    }
}

/// A text that ends with a line ending and has no `"\r\n"` is its lines
/// joined by line endings, and one more line ending.
pub proof fn lemma_join_lines(x: Seq<char>)
    requires
        x.len() > 0,
        x.last() == '\n',
        !has_crlf(x),
    ensures
        join(lines(x), seq!['\n']) + seq!['\n'] == x,
    decreases x.len(),
{
    let nl = seq!['\n'];
    assert(x.subrange(x.len() - 1, x.len() as int) =~= nl);
    assert(matches_at(x, nl, x.len() - 1));
    lemma_find(x, nl);
    let i = find(x, nl)->Some_0;
    assert(x.subrange(i, i + 1)[0] == x[i]);
    let a = x.take(i);
    let rest = x.skip(i + 1);
    assert(lines(x) == seq![strip_cr(a)] + lines(rest));
    if a.len() > 0 && a.last() == '\r' {
        assert(x[i - 1] == '\r' && x[i] == '\n');
    }
    assert(strip_cr(a) == a);
    if rest.len() == 0 {
        assert(lines(rest) =~= Seq::<Seq<char>>::empty());
        assert(lines(x) =~= seq![a]);
        assert(a + nl =~= x);
    } else {
        assert(rest.last() == x.last());
        if has_crlf(rest) {
            let k = choose|k: int|
                0 <= k < rest.len() - 1 && #[trigger] rest[k] == '\r' && rest[k + 1] == '\n';
            assert(x[i + 1 + k] == rest[k] && x[i + 2 + k] == rest[k + 1]);
        }
        lemma_join_lines(rest);
        assert(lines(rest).len() > 0);
        lemma_join_front(a, lines(rest), nl);
        assert(a + nl + join(lines(rest), nl) + nl =~= a + nl + rest);
        assert(a + nl + rest =~= x);
    }
}


/// The pieces of an ASCII text split on some characters are ASCII.
pub proof fn lemma_split_any_ascii(s: Seq<char>, cs: Seq<char>)
    requires
        all_ascii(s),
    ensures
        forall|k: int| 0 <= k < split_any(s, cs).len() ==> all_ascii(#[trigger] split_any(s, cs)[k]),
    decreases s.len(),
{
    lemma_find_any_from(s, cs, 0);
    match find_any_from(s, cs, 0) {
        Some(i) => {
            let rest = s.skip(i + 1);
            assert(all_ascii(rest)) by {
                assert forall|j: int| 0 <= j < rest.len() implies (#[trigger] rest[j] as u32) < 128 by {
                    assert(rest[j] == s[i + 1 + j]);
                }
            }
            assert(all_ascii(s.take(i))) by {
                assert forall|j: int| 0 <= j < i implies (#[trigger] s.take(i)[j] as u32) < 128 by {
                    assert(s.take(i)[j] == s[j]);
                }
            }
            lemma_split_any_ascii(rest, cs);
            let ps = split_any(s, cs);
            assert(ps == seq![s.take(i)] + split_any(rest, cs));
            assert forall|k: int| 0 <= k < ps.len() implies all_ascii(#[trigger] ps[k]) by {
                if k > 0 {
                    assert(ps[k] == split_any(rest, cs)[k - 1]);
                }
            }
        },
        None => {
            assert(split_any(s, cs) == seq![s]);
        },
    }
}


// ---------------------------------------------------------------------------
// What replacing leaves
// ---------------------------------------------------------------------------

/// How the result of a replacement is made when the pattern occurs: the
/// text before the first occurrence, the replacement, and the rest replaced.
proof fn lemma_replace_step(s: Seq<char>, f: Seq<char>, t: Seq<char>, i: int)
    requires
        f.len() > 0,
        find(s, f) == Some(i),
    ensures
        0 <= i,
        i + f.len() <= s.len(),
        matches_at(s, f, i),
        forall|j: int| 0 <= j < i ==> !#[trigger] matches_at(s, f, j),
        replace(s, f, t) == s.take(i) + t + replace(s.skip(i + f.len()), f, t),
{
    lemma_find(s, f);
}

/// A character that neither the text nor the replacement holds is not in
/// the result.
pub proof fn lemma_replace_keeps_out(s: Seq<char>, f: Seq<char>, t: Seq<char>, c: char)
    requires
        forall|j: int| 0 <= j < s.len() ==> s[j] != c,
        forall|j: int| 0 <= j < t.len() ==> t[j] != c,
    ensures
        forall|j: int| 0 <= j < replace(s, f, t).len() ==> replace(s, f, t)[j] != c,
    decreases s.len(),
{
    if f.len() > 0 {
        lemma_find(s, f);
        if let Some(i) = find(s, f) {
            lemma_replace_step(s, f, t, i);
            let rest = s.skip(i + f.len());
            assert forall|j: int| 0 <= j < rest.len() implies rest[j] != c by {
                assert(rest[j] == s[i + f.len() + j]);
            }
            lemma_replace_keeps_out(rest, f, t, c);
            let r = replace(s, f, t);
            let r2 = replace(rest, f, t);
            assert forall|p: int| 0 <= p < r.len() implies r[p] != c by {
                if p < i {
                    assert(r[p] == s[p]);
                } else if p < i + t.len() {
                    assert(r[p] == t[p - i]);
                } else {
                    assert(r[p] == r2[p - i - t.len()]);
                }
            }
        }
    }
}

/// Replacing a pattern that starts with `c`, when every `c` of the text
/// starts an occurrence of it and the replacement holds no `c`, leaves no
/// `c`.
pub proof fn lemma_replace_removes(s: Seq<char>, f: Seq<char>, t: Seq<char>, c: char)
    requires
        f.len() > 0,
        f[0] == c,
        forall|j: int| 0 <= j < t.len() ==> t[j] != c,
        forall|j: int| 0 <= j < s.len() && s[j] == c ==> matches_at(s, f, j),
    ensures
        forall|j: int| 0 <= j < replace(s, f, t).len() ==> replace(s, f, t)[j] != c,
    decreases s.len(),
{
    lemma_find(s, f);
    match find(s, f) {
        Some(i) => {
            lemma_replace_step(s, f, t, i);
            let rest = s.skip(i + f.len());
            assert forall|j: int| 0 <= j < rest.len() && rest[j] == c implies matches_at(rest, f, j) by {
                assert(rest[j] == s[i + f.len() + j]);
                assert(matches_at(s, f, i + f.len() + j));
                assert(rest.subrange(j, j + f.len()) =~= s.subrange(
                    i + f.len() + j,
                    i + f.len() + j + f.len(),
                ));
            }
            lemma_replace_removes(rest, f, t, c);
            let r = replace(s, f, t);
            let r2 = replace(rest, f, t);
            assert forall|p: int| 0 <= p < r.len() implies r[p] != c by {
                if p < i {
                    assert(r[p] == s[p]);
                    if s[p] == c {
                        assert(matches_at(s, f, p));
                    }
                } else if p < i + t.len() {
                    assert(r[p] == t[p - i]);
                } else {
                    assert(r[p] == r2[p - i - t.len()]);
                }
            }
        },
        None => {
            assert forall|p: int| 0 <= p < s.len() implies s[p] != c by {
                if s[p] == c {
                    assert(matches_at(s, f, p));
                }
            }
        },
    }
}

/// Replacing a pattern `f` that starts with `c`, when every `c` of the text
/// starts an occurrence of `f` or of another pattern `g` whose later
/// characters are not `c`, and the replacement holds no `c`: every `c` left
/// starts an occurrence of `g`.
pub proof fn lemma_replace_leaves_other(
    s: Seq<char>,
    f: Seq<char>,
    g: Seq<char>,
    t: Seq<char>,
    c: char,
)
    requires
        f.len() > 0,
        f[0] == c,
        forall|k: int| 1 <= k < g.len() ==> g[k] != c,
        forall|j: int| 0 <= j < t.len() ==> t[j] != c,
        forall|j: int|
            0 <= j < s.len() && s[j] == c ==> matches_at(s, f, j) || matches_at(s, g, j),
    ensures
        forall|j: int|
            0 <= j < replace(s, f, t).len() && replace(s, f, t)[j] == c ==> matches_at(
                replace(s, f, t),
                g,
                j,
            ),
    decreases s.len(),
{
    lemma_find(s, f);
    let r = replace(s, f, t);
    match find(s, f) {
        Some(i) => {
            lemma_replace_step(s, f, t, i);
            let rest = s.skip(i + f.len());
            assert forall|j: int| 0 <= j < rest.len() && rest[j] == c implies matches_at(rest, f, j)
                || matches_at(rest, g, j) by {
                let q = i + f.len() + j;
                assert(rest[j] == s[q]);
                if matches_at(s, f, q) {
                    assert(rest.subrange(j, j + f.len()) =~= s.subrange(q, q + f.len()));
                } else {
                    assert(matches_at(s, g, q));
                    assert(rest.subrange(j, j + g.len()) =~= s.subrange(q, q + g.len()));
                }
            }
            lemma_replace_leaves_other(rest, f, g, t, c);
            let r2 = replace(rest, f, t);
            assert forall|p: int| 0 <= p < r.len() && r[p] == c implies matches_at(r, g, p) by {
                if p < i {
                    assert(r[p] == s[p]);
                    assert(!matches_at(s, f, p));
                    assert(matches_at(s, g, p));
                    if p + g.len() > i {
                        assert(s.subrange(p, p + g.len())[i - p] == s[i]);
                        assert(s.subrange(i, i + f.len())[0] == s[i]);
                        assert(g[i - p] == c);
                    }
                    assert(r.subrange(p, p + g.len()) =~= s.subrange(p, p + g.len()));
                } else if p < i + t.len() {
                    assert(r[p] == t[p - i]);
                } else {
                    let q = p - i - t.len();
                    assert(r[p] == r2[q]);
                    assert(matches_at(r2, g, q));
                    assert(r.subrange(p, p + g.len()) =~= r2.subrange(q, q + g.len()));
                }
            }
        },
        None => {
            assert forall|p: int| 0 <= p < r.len() && r[p] == c implies matches_at(r, g, p) by {
                assert(!matches_at(s, f, p));
            }
        },
    }
}

} // verus!
