//! The file name and file stem of a path, as `std::path::Path` gives them on Windows,
//! where the game runs. A path may start with a prefix, as the `std::path::Prefix`
//! documentation lists them: a drive (`C:`), a server share (`\\server\share`), a
//! device (`\\.\COM42`), or a verbatim prefix (`\\?\cat_pics`, `\\?\C:`,
//! `\\?\UNC\server\share`). After the prefix, `/` and `\` both separate components,
//! except in a verbatim path, where only `\` does and a `.` component is kept as such.

use vstd::prelude::*;

verus! {

/// Index of the last `c` in `s[..end]`, or -1 when there is none.
pub open spec fn last_index_before(s: Seq<char>, end: int, c: char) -> int
    decreases end,
{
    if end <= 0 {
        -1
    } else if s[end - 1] == c {
        end - 1
    } else {
        last_index_before(s, end - 1, c)
    }
}

/// Whether `c` separates path components outside verbatim paths.
pub open spec fn is_separator(c: char) -> bool {
    c == '/' || c == '\\'
}

/// Whether `c` separates path components, in a verbatim path or not.
pub open spec fn separates(c: char, verbatim: bool) -> bool {
    if verbatim {
        c == '\\'
    } else {
        is_separator(c)
    }
}

/// Whether `c` is an ASCII letter.
pub open spec fn is_ascii_letter(c: char) -> bool {
    ('a' <= c && c <= 'z') || ('A' <= c && c <= 'Z')
}

/// Index of the first separator in `p` at or after `from`, or `p.len()` when there is
/// none.
pub open spec fn next_separator_from(p: Seq<char>, from: int, verbatim: bool) -> int
    decreases p.len() - from,
{
    if from < 0 || from >= p.len() {
        p.len() as int
    } else if separates(p[from], verbatim) {
        from
    } else {
        next_separator_from(p, from + 1, verbatim)
    }
}

/// Whether `p` starts with the verbatim mark `\\?\`.
pub open spec fn is_verbatim(p: Seq<char>) -> bool {
    p.len() >= 4 && p[0] == '\\' && p[1] == '\\' && p[2] == '?' && p[3] == '\\'
}

/// Whether `p` holds a drive (a letter and `:`) at `i`.
pub open spec fn is_drive_at(p: Seq<char>, i: int) -> bool {
    0 <= i && i + 2 <= p.len() && is_ascii_letter(p[i]) && p[i + 1] == ':'
}

/// The length of the prefix of `p`, 0 where it has none:
/// - after `\\?\UNC\`, the server and the share components;
/// - `\\?\` and a drive, where the drive is followed by `\` or ends the path;
/// - after any other `\\?\`, one component;
/// - after `\\.\` (either separator), one component;
/// - after two separators, a non-empty server and a non-empty share component;
/// - a drive at the start.
pub open spec fn prefix_len(p: Seq<char>) -> int {
    if is_verbatim(p) {
        if p.len() >= 8 && p[4] == 'U' && p[5] == 'N' && p[6] == 'C' && p[7] == '\\' {
            let s = next_separator_from(p, 8, true);
            if s >= p.len() {
                p.len() as int
            } else {
                next_separator_from(p, s + 1, true)
            }
        } else if is_drive_at(p, 4) && (p.len() == 6 || p[6] == '\\') {
            6
        } else {
            next_separator_from(p, 4, true)
        }
    } else if p.len() >= 4 && is_separator(p[0]) && is_separator(p[1]) && p[2] == '.'
        && is_separator(p[3]) {
        next_separator_from(p, 4, false)
    } else if p.len() >= 2 && is_separator(p[0]) && is_separator(p[1]) {
        let s = next_separator_from(p, 2, false);
        if s > 2 && s < p.len() && next_separator_from(p, s + 1, false) > s + 1 {
            next_separator_from(p, s + 1, false)
        } else {
            0
        }
    } else if is_drive_at(p, 0) {
        2
    } else {
        0
    }
}

/// Index of the last separator in `s[lo..end]`, or `lo - 1` when there is none.
pub open spec fn last_separator_before(s: Seq<char>, lo: int, end: int, verbatim: bool) -> int
    decreases end - lo,
{
    if end <= lo {
        lo - 1
    } else if separates(s[end - 1], verbatim) {
        end - 1
    } else {
        last_separator_before(s, lo, end - 1, verbatim)
    }
}

/// The last separator in `s[lo..end]` lies in that range, or there is none (`lo - 1`).
pub proof fn lemma_last_separator_range(s: Seq<char>, lo: int, end: int, verbatim: bool)
    ensures
        end <= lo ==> last_separator_before(s, lo, end, verbatim) == lo - 1,
        end > lo ==> lo - 1 <= last_separator_before(s, lo, end, verbatim) < end,
    decreases end - lo,
{
    if end > lo && !separates(s[end - 1], verbatim) {
        lemma_last_separator_range(s, lo, end - 1, verbatim);
    }
}

/// The bounds `(start, end)` of the file name within `p[lo..end]`, the components
/// starting at `lo`.
///
/// Empty components are skipped; a last component `..`, or `.` in a verbatim path,
/// means there is no file name; elsewhere `.` components are skipped.
pub open spec fn file_name_bounds(p: Seq<char>, lo: int, end: int, verbatim: bool) -> Option<
    (int, int),
>
    decreases end - lo,
{
    if end <= lo {
        None
    } else {
        let k = last_separator_before(p, lo, end, verbatim);
        proof {
            lemma_last_separator_range(p, lo, end, verbatim);
        }
        let seg = p.subrange(k + 1, end);
        if seg == seq!['.', '.'] {
            None
        } else if seg.len() > 0 && seg != seq!['.'] {
            Some((k + 1, end))
        } else if seg == seq!['.'] && verbatim {
            None
        } else if k < lo {
            None
        } else {
            file_name_bounds(p, lo, k, verbatim)
        }
    }
}

/// The file name of the path `p` (its last normal component), if it has one.
pub open spec fn file_name_of(p: Seq<char>) -> Option<Seq<char>> {
    match file_name_bounds(p, prefix_len(p), p.len() as int, is_verbatim(p)) {
        Some((a, b)) => Some(p.subrange(a, b)),
        None => None,
    }
}

/// The stem of a file name: the part before the last `.`; the whole name when it has
/// no `.` or its only `.` is the first char.
pub open spec fn stem_of(name: Seq<char>) -> Seq<char> {
    let d = last_index_before(name, name.len() as int, '.');
    if d <= 0 {
        name
    } else {
        name.subrange(0, d)
    }
}

/// The file stem of the path `p`, if it has a file name.
pub open spec fn file_stem_of(p: Seq<char>) -> Option<Seq<char>> {
    match file_name_of(p) {
        Some(n) => Some(stem_of(n)),
        None => None,
    }
}

/// The last index of `c` before `end` is -1 or lies in `[0, end)`.
pub proof fn lemma_last_index_lt(s: Seq<char>, end: int, c: char)
    ensures
        -1 <= last_index_before(s, end, c),
        last_index_before(s, end, c) < end || end <= 0,
        end <= 0 ==> last_index_before(s, end, c) == -1,
    decreases end,
{
    if end > 0 && s[end - 1] != c {
        lemma_last_index_lt(s, end - 1, c);
    }
}

proof fn lemma_next_separator_range(p: Seq<char>, from: int, verbatim: bool)
    requires
        0 <= from,
    ensures
        from <= next_separator_from(p, from, verbatim) <= p.len() || (from > p.len()
            && next_separator_from(p, from, verbatim) == p.len()),
    decreases p.len() - from,
{
    if from < p.len() && !separates(p[from], verbatim) {
        lemma_next_separator_range(p, from + 1, verbatim);
    }
}

/// A prefix lies within its path.
pub proof fn lemma_prefix_len_range(p: Seq<char>)
    ensures
        0 <= prefix_len(p) <= p.len(),
{
    lemma_next_separator_range(p, 2, false);
    lemma_next_separator_range(p, 4, false);
    lemma_next_separator_range(p, 4, true);
    lemma_next_separator_range(p, 8, true);
    let s = next_separator_from(p, 8, true);
    if 0 <= s {
        lemma_next_separator_range(p, s + 1, true);
    }
    let t = next_separator_from(p, 2, false);
    if 0 <= t {
        lemma_next_separator_range(p, t + 1, false);
    }
}

proof fn lemma_file_name_bounds_range(p: Seq<char>, lo: int, end: int, verbatim: bool)
    requires
        0 <= lo,
        end <= p.len(),
    ensures
        file_name_bounds(p, lo, end, verbatim) matches Some((a, b)) ==> lo <= a < b <= end,
    decreases end - lo,
{
    if end > lo {
        let k = last_separator_before(p, lo, end, verbatim);
        lemma_last_separator_range(p, lo, end, verbatim);
        if k >= lo {
            lemma_file_name_bounds_range(p, lo, k, verbatim);
        }
    }
}

proof fn lemma_last_separator_bounds(s: Seq<char>, lo: int, end: int, verbatim: bool)
    requires
        0 <= lo <= end <= s.len(),
    ensures
        lo - 1 <= last_separator_before(s, lo, end, verbatim) < end,
        last_separator_before(s, lo, end, verbatim) >= lo ==> separates(
            s[last_separator_before(s, lo, end, verbatim)],
            verbatim,
        ),
        forall|j: int|
            last_separator_before(s, lo, end, verbatim) < j < end ==> !separates(s[j], verbatim),
    decreases end - lo,
{
    if end > lo && !separates(s[end - 1], verbatim) {
        lemma_last_separator_bounds(s, lo, end - 1, verbatim);
    }
}

/// Exec form of `last_separator_before`; `None` where there is no separator.
fn last_separator_in(v: &Vec<char>, lo: usize, end: usize, verbatim: bool) -> (r: Option<usize>)
    requires
        lo <= end <= v@.len(),
    ensures
        match r {
            Some(k) => k as int == last_separator_before(v@, lo as int, end as int, verbatim),
            None => last_separator_before(v@, lo as int, end as int, verbatim) == lo - 1,
        },
{
    let mut i: usize = end;
    while i > lo
        invariant
            lo <= i <= end <= v@.len(),
            last_separator_before(v@, lo as int, end as int, verbatim) == last_separator_before(
                v@,
                lo as int,
                i as int,
                verbatim,
            ),
        decreases i,
    {
        let c = v[i - 1];
        if c == '\\' || (!verbatim && c == '/') {
            return Some(i - 1);
        }
        i = i - 1;
    }
    None
}

/// Exec form of `next_separator_from`.
fn next_separator(v: &Vec<char>, from: usize, verbatim: bool) -> (r: usize)
    requires
        from <= v@.len(),
    ensures
        r as int == next_separator_from(v@, from as int, verbatim),
        from <= r <= v@.len(),
{
    let mut i = from;
    while i < v.len()
        invariant
            from <= i <= v@.len(),
            next_separator_from(v@, from as int, verbatim) == next_separator_from(
                v@,
                i as int,
                verbatim,
            ),
        decreases v@.len() - i,
    {
        let c = v[i];
        if c == '\\' || (!verbatim && c == '/') {
            return i;
        }
        i = i + 1;
    }
    i
}

fn is_sep_char(c: char) -> (r: bool)
    ensures
        r == is_separator(c),
{
    c == '/' || c == '\\'
}

fn is_letter(c: char) -> (r: bool)
    ensures
        r == is_ascii_letter(c),
{
    ('a' <= c && c <= 'z') || ('A' <= c && c <= 'Z')
}

/// Whether the path held in `v` starts with the verbatim mark (see `is_verbatim`).
fn verbatim_path(v: &Vec<char>) -> (r: bool)
    ensures
        r == is_verbatim(v@),
{
    v.len() >= 4 && v[0] == '\\' && v[1] == '\\' && v[2] == '?' && v[3] == '\\'
}

/// The length of the prefix of the path held in `v` (see `prefix_len`).
fn prefix_length(v: &Vec<char>) -> (r: usize)
    ensures
        r as int == prefix_len(v@),
        r <= v@.len(),
{
    let n = v.len();
    if verbatim_path(v) {
        if n >= 8 && v[4] == 'U' && v[5] == 'N' && v[6] == 'C' && v[7] == '\\' {
            let s = next_separator(v, 8, true);
            if s >= n {
                n
            } else {
                next_separator(v, s + 1, true)
            }
        } else if n >= 6 && is_letter(v[4]) && v[5] == ':' && (n == 6 || v[6] == '\\') {
            6
        } else {
            next_separator(v, 4, true)
        }
    } else if n >= 4 && is_sep_char(v[0]) && is_sep_char(v[1]) && v[2] == '.' && is_sep_char(
        v[3],
    ) {
        next_separator(v, 4, false)
    } else if n >= 2 && is_sep_char(v[0]) && is_sep_char(v[1]) {
        let s = next_separator(v, 2, false);
        if s > 2 && s < n {
            let e = next_separator(v, s + 1, false);
            if e > s + 1 {
                e
            } else {
                0
            }
        } else {
            0
        }
    } else if n >= 2 && is_letter(v[0]) && v[1] == ':' {
        2
    } else {
        0
    }
}

proof fn lemma_last_index_bounds(s: Seq<char>, end: int, c: char)
    requires
        0 <= end <= s.len(),
    ensures
        -1 <= last_index_before(s, end, c) < end,
        last_index_before(s, end, c) >= 0 ==> s[last_index_before(s, end, c)] == c,
        forall|j: int| last_index_before(s, end, c) < j < end ==> s[j] != c,
    decreases end,
{
    lemma_last_index_lt(s, end, c);
    if end > 0 && s[end - 1] != c {
        lemma_last_index_bounds(s, end - 1, c);
        assert forall|j: int| last_index_before(s, end, c) < j < end implies s[j] != c by {
            if j < end - 1 {
            }
        }
    }
}

proof fn lemma_last_index_prefix(s: Seq<char>, a: int, end: int, c: char)
    requires
        0 <= a <= end <= s.len(),
    ensures
        last_index_before(s.subrange(a, end), end - a, c) == if last_index_before(s, end, c) < a {
            -1
        } else {
            last_index_before(s, end, c) - a
        },
    decreases end - a,
{
    if end > a && s[end - 1] != c {
        lemma_last_index_prefix(s, a, end - 1, c);
        assert(s.subrange(a, end - 1) =~= s.subrange(a, end).subrange(0, end - 1 - a));
        lemma_last_index_sub(s.subrange(a, end), end - a - 1, c);
    }
    if end == a {
        lemma_last_index_bounds(s, end, c);
    }
}

proof fn lemma_last_index_sub(s: Seq<char>, end: int, c: char)
    requires
        0 <= end <= s.len(),
    ensures
        last_index_before(s.subrange(0, end), end, c) == last_index_before(s, end, c),
    decreases end,
{
    if end > 0 {
        lemma_last_index_sub(s, end - 1, c);
        assert(s.subrange(0, end - 1) =~= s.subrange(0, end).subrange(0, end - 1));
        lemma_last_index_sub(s.subrange(0, end), end - 1, c);
    }
}

/// Exec form of `last_index_before`.
fn last_index_in(v: &Vec<char>, end: usize, c: char) -> (r: Option<usize>)
    requires
        end <= v@.len(),
    ensures
        match r {
            Some(k) => k as int == last_index_before(v@, end as int, c),
            None => last_index_before(v@, end as int, c) == -1,
        },
{
    let mut i: usize = end;
    while i > 0
        invariant
            i <= end <= v@.len(),
            last_index_before(v@, end as int, c) == last_index_before(v@, i as int, c),
        decreases i,
    {
        if v[i - 1] == c {
            return Some(i - 1);
        }
        i = i - 1;
    }
    None
}

/// Whether `v[a..b]` is exactly the chars of `lit`.
fn range_is(v: &Vec<char>, a: usize, b: usize, lit: &Vec<char>) -> (r: bool)
    requires
        a <= b <= v@.len(),
    ensures
        r == (v@.subrange(a as int, b as int) == lit@),
{
    if b - a != lit.len() {
        return false;
    }
    let mut i: usize = 0;
    while i < lit.len()
        invariant
            a <= b <= v@.len(),
            b - a == lit@.len(),
            i <= lit@.len(),
            forall|j: int| 0 <= j < i ==> v@[a + j] == lit@[j],
        decreases lit@.len() - i,
    {
        if v[a + i] != lit[i] {
            assert(v@.subrange(a as int, b as int)[i as int] != lit@[i as int]);
            return false;
        }
        i = i + 1;
    }
    assert(v@.subrange(a as int, b as int) =~= lit@);
    true
}

/// The bounds of the file name of the path held in `v`.
pub fn file_name_range(v: &Vec<char>) -> (r: Option<(usize, usize)>)
    ensures
        match r {
            Some((a, b)) => file_name_bounds(v@, prefix_len(v@), v@.len() as int, is_verbatim(v@))
                == Some((a as int, b as int)),
            None => file_name_bounds(v@, prefix_len(v@), v@.len() as int, is_verbatim(v@)) is None,
        },
{
    let dotdot: Vec<char> = vec!['.', '.'];
    let dot: Vec<char> = vec!['.'];
    assert(dotdot@ =~= seq!['.', '.']);
    assert(dot@ =~= seq!['.']);
    let lo = prefix_length(v);
    let verbatim = verbatim_path(v);
    let mut end: usize = v.len();
    loop
        invariant
            lo as int == prefix_len(v@),
            verbatim == is_verbatim(v@),
            lo <= v@.len(),
            end <= v@.len(),
            dotdot@ == seq!['.', '.'],
            dot@ == seq!['.'],
            file_name_bounds(v@, lo as int, v@.len() as int, verbatim) == file_name_bounds(
                v@,
                lo as int,
                end as int,
                verbatim,
            ),
        decreases end,
    {
        if end <= lo {
            return None;
        }
        let k = last_separator_in(v, lo, end, verbatim);
        proof {
            lemma_last_separator_bounds(v@, lo as int, end as int, verbatim);
        }
        let start: usize = match k {
            Some(k) => k + 1,
            None => lo,
        };
        if range_is(v, start, end, &dotdot) {
            return None;
        }
        let is_dot = range_is(v, start, end, &dot);
        if start < end && !is_dot {
            return Some((start, end));
        }
        if is_dot && verbatim {
            return None;
        }
        match k {
            None => {
                return None;
            },
            Some(k) => {
                end = k;
            },
        }
    }
}

/// The end of the stem of the file name `v[a..b]`: the stem is `v[a..r]`.
pub fn stem_range(v: &Vec<char>, a: usize, b: usize) -> (r: usize)
    requires
        a <= b <= v@.len(),
    ensures
        a <= r <= b,
        v@.subrange(a as int, r as int) == stem_of(v@.subrange(a as int, b as int)),
{
    let ghost name = v@.subrange(a as int, b as int);
    let ghost big_l = last_index_before(v@, b as int, '.');
    proof {
        lemma_last_index_prefix(v@, a as int, b as int, '.');
        lemma_last_index_lt(v@, b as int, '.');
        assert(name.subrange(0, name.len() as int) =~= name);
    }
    let mut i: usize = b;
    while i > a
        invariant
            a <= i <= b <= v@.len(),
            big_l == last_index_before(v@, b as int, '.'),
            big_l == last_index_before(v@, i as int, '.'),
            name == v@.subrange(a as int, b as int),
            name.subrange(0, name.len() as int) == name,
            last_index_before(name, name.len() as int, '.') == if big_l < a {
                -1
            } else {
                big_l - a
            },
        decreases i,
    {
        if v[i - 1] == '.' {
            assert(big_l == i - 1);
            if i - 1 == a {
                return b;
            }
            assert(stem_of(name) == name.subrange(0, (i - 1 - a) as int));
            assert(v@.subrange(a as int, (i - 1) as int) =~= name.subrange(0, (i - 1 - a) as int));
            return i - 1;
        }
        i = i - 1;
    }
    proof {
        lemma_last_index_lt(v@, i as int, '.');
    }
    b
}

/// The file stem of `path` as `std::path::Path::file_stem` gives it, or `None`.
pub fn file_stem(path: &str) -> (r: Option<String>)
    ensures
        match r {
            Some(s) => file_stem_of(path@) == Some(s@),
            None => file_stem_of(path@) is None,
        },
{
    let v = crate::text::chars_of(path);
    match file_name_range(&v) {
        None => None,
        Some((a, b)) => {
            proof {
                lemma_prefix_len_range(v@);
                lemma_file_name_bounds_range(v@, prefix_len(v@), v@.len() as int, is_verbatim(v@));
            }
            let e = stem_range(&v, a, b);
            Some(crate::text::string_from_range(&v, a, e))
        },
    }
}

proof fn lemma_separator_skip(s: Seq<char>, lo: int, j: int, end: int)
    requires
        lo <= j <= end <= s.len(),
        forall|k: int| j <= k < end ==> !is_separator(#[trigger] s[k]),
    ensures
        last_separator_before(s, lo, end, false) == last_separator_before(s, lo, j, false),
    decreases end - j,
{
    if end > j {
        lemma_separator_skip(s, lo, j, end - 1);
    }
}

proof fn lemma_separator_split(s: Seq<char>, q: int, end: int)
    requires
        0 <= q <= end <= s.len(),
    ensures
        last_separator_before(s, 0, end, false) == if last_separator_before(s, q, end, false)
            >= q {
            last_separator_before(s, q, end, false)
        } else {
            last_separator_before(s, 0, q, false)
        },
    decreases end - q,
{
    lemma_last_separator_range(s, q, end, false);
    if end > q && !is_separator(s[end - 1]) {
        lemma_separator_split(s, q, end - 1);
    }
}

proof fn lemma_separator_shift(s: Seq<char>, w: Seq<char>, q: int, i: int)
    requires
        0 <= q,
        0 <= i <= w.len(),
        q + w.len() <= s.len(),
        forall|k: int| 0 <= k < w.len() ==> s[q + k] == #[trigger] w[k],
    ensures
        last_separator_before(s, q, q + i, false) == q + last_separator_before(w, 0, i, false),
    decreases i,
{
    if i > 0 {
        assert(s[q + i - 1] == w[i - 1]);
        lemma_separator_shift(s, w, q, i - 1);
    }
}

proof fn lemma_char_skip(s: Seq<char>, j: int, end: int, c: char)
    requires
        0 <= j <= end <= s.len(),
        forall|k: int| j <= k < end ==> #[trigger] s[k] != c,
    ensures
        last_index_before(s, end, c) == last_index_before(s, j, c),
    decreases end - j,
{
    if end > j {
        lemma_char_skip(s, j, end - 1, c);
    }
}

/// Whether a tool's file name may be `name` + `.` + `ext` for the law below: `name` is
/// not empty, holds no `/` or `.`, does not end with `\`, and does not start with a
/// drive (`C:`) or with `\\`; `ext` is not empty and holds no `/`, `.` or `\`.
pub open spec fn plain_file_name(name: Seq<char>, ext: Seq<char>) -> bool {
    &&& name.len() > 0
    &&& forall|i: int| 0 <= i < name.len() ==> #[trigger] name[i] != '/' && name[i] != '.'
    &&& name.last() != '\\'
    &&& !is_drive_at(name, 0)
    &&& !(name.len() >= 2 && name[0] == '\\' && name[1] == '\\')
    &&& ext.len() > 0
    &&& forall|i: int| 0 <= i < ext.len() ==> !is_separator(#[trigger] ext[i]) && ext[i] != '.'
}

/// Whether `dir` can start a relative path: it is not empty, does not start with a
/// separator, and has no `:` as its second char.
pub open spec fn relative_dir(dir: Seq<char>) -> bool {
    dir.len() > 0 && !is_separator(dir[0]) && (dir.len() >= 2 ==> dir[1] != ':')
}

/// The part of `name` after its last `\`.
pub open spec fn last_part(name: Seq<char>) -> Seq<char> {
    name.subrange(last_separator_before(name, 0, name.len() as int, false) + 1, name.len() as int)
}

/// Law: the file stem of `dir/name.ext` (or `dir\name.ext`) is the file stem of `name`
/// alone, whatever the directories: only the file stem matters, and the directories and
/// the extension are dropped. It is the part of `name` after its last `\`.
pub proof fn lemma_stem_ignores_dirs_and_extension(
    dir: Seq<char>,
    sep: char,
    name: Seq<char>,
    ext: Seq<char>,
)
    requires
        is_separator(sep),
        relative_dir(dir),
        plain_file_name(name, ext),
    ensures
        file_stem_of(dir + seq![sep] + name + seq!['.'] + ext) == file_stem_of(name),
        file_stem_of(name) == Some(last_part(name)),
{
    let p = dir + seq![sep] + name + seq!['.'] + ext;
    let d = dir.len() as int;
    let n = name.len() as int;
    let q = d + 1;
    let pl = p.len() as int;
    assert(pl == d + 1 + n + 1 + ext.len());
    assert(p[0] == dir[0]);
    assert(!is_verbatim(p));
    assert(!is_separator(p[0]));
    assert(!is_drive_at(p, 0)) by {
        if d == 1 {
            assert(p[1] == sep);
        } else {
            assert(p[1] == dir[1]);
        }
    }
    assert(prefix_len(p) == 0);
    assert forall|k: int| q + n <= k < pl implies !is_separator(#[trigger] p[k]) by {
        if k > q + n {
            assert(p[k] == ext[k - q - n - 1]);
        }
    }
    lemma_separator_skip(p, 0, q + n, pl);
    lemma_separator_split(p, q, q + n);
    assert forall|k: int| 0 <= k < n implies p[q + k] == #[trigger] name[k] by {}
    lemma_separator_shift(p, name, q, n);
    let j = last_separator_before(name, 0, n, false);
    lemma_last_separator_bounds(name, 0, n, false);
    lemma_last_separator_bounds(p, 0, q, false);
    assert(p[d] == sep);
    assert(last_separator_before(p, 0, q, false) == d);
    let k = last_separator_before(p, 0, pl, false);
    assert(k == q + j || (j == -1 && k == d));
    assert(k == q + j);
    let tail = last_part(name);
    assert(j < n - 1) by {
        if j == n - 1 {
            assert(separates(name[j], false));
            assert(name[j] == '\\');
        }
    }
    let file = tail + seq!['.'] + ext;
    assert(p.subrange(k + 1, pl) =~= file);
    assert(tail.len() >= 1);
    assert(file.len() >= 3);
    assert(file != seq!['.', '.']);
    assert(file != seq!['.']);
    assert(file_name_of(p) == Some(file));
    assert forall|i: int| tail.len() + 1 <= i < file.len() implies #[trigger] file[i] != '.' by {
        assert(file[i] == ext[i - tail.len() - 1]);
    }
    lemma_char_skip(file, tail.len() + 1 as int, file.len() as int, '.');
    assert(file[tail.len() as int] == '.');
    assert(last_index_before(file, file.len() as int, '.') == tail.len());
    assert(file.subrange(0, tail.len() as int) =~= tail);
    assert(file_stem_of(p) == Some(tail));
    assert(!is_verbatim(name));
    assert(prefix_len(name) == 0) by {
        if n >= 2 && is_separator(name[0]) && is_separator(name[1]) {
            assert(name[0] != '/');
            assert(name[1] != '/');
        }
    }
    assert(tail != seq!['.', '.']) by {
        assert(tail[0] == name[j + 1]);
    }
    assert(tail != seq!['.']) by {
        assert(tail[0] == name[j + 1]);
    }
    assert(file_name_of(name) == Some(tail));
    assert forall|i: int| 0 <= i < tail.len() implies #[trigger] tail[i] != '.' by {
        assert(tail[i] == name[j + 1 + i]);
    }
    lemma_char_skip(tail, 0, tail.len() as int, '.');
}

} // verus!
