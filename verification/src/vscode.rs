//! What the library reads of a Visual Studio Code window: its editor groups and tabs,
//! and the cursor position shown in its status bar ("Ln 218, Col 5").

use vstd::prelude::*;

use crate::resolve_app::AppResolveError;
use crate::text::chars_of;
use crate::text::string_from_range;

verus! {

/// The first `i >= from` at which `s` holds ", ", or -1 where there is none.
pub open spec fn comma_space_from(s: Seq<char>, from: int) -> int
    decreases s.len() - from,
{
    if from < 0 || from + 1 >= s.len() {
        -1
    } else if s[from] == ',' && s[from + 1] == ' ' {
        from
    } else {
        comma_space_from(s, from + 1)
    }
}

/// The pieces of `s[from..]` between occurrences of ", ", as `str::split(", ")` gives
/// them: occurrences are taken left to right without overlapping.
pub open spec fn comma_parts_from(s: Seq<char>, from: int) -> Seq<Seq<char>>
    decreases s.len() - from,
{
    let k = comma_space_from(s, from);
    if k < from || from < 0 || from > s.len() {
        seq![s.subrange(from, s.len() as int)]
    } else {
        proof {
            lemma_comma_space_range(s, from);
        }
        seq![s.subrange(from, k)] + comma_parts_from(s, k + 2)
    }
}

/// The first `i >= from` at which `s` holds a space, or `s.len()` where there is none.
pub open spec fn space_from(s: Seq<char>, from: int) -> int
    decreases s.len() - from,
{
    if from < 0 || from >= s.len() {
        s.len() as int
    } else if s[from] == ' ' {
        from
    } else {
        space_from(s, from + 1)
    }
}

/// The second of the space-separated words of `s` (`split(' ').nth(1)`): the text
/// between its first and second spaces, or after its first space where it has one only.
pub open spec fn second_word(s: Seq<char>) -> Option<Seq<char>> {
    let a = space_from(s, 0);
    if a >= s.len() {
        None
    } else {
        Some(s.subrange(a + 1, space_from(s, a + 1)))
    }
}

/// Whether `c` is a decimal digit.
pub open spec fn is_digit(c: char) -> bool {
    '0' <= c && c <= '9'
}

/// The number that the decimal digits `d` write.
pub open spec fn digits_value(d: Seq<char>) -> nat
    decreases d.len(),
{
    if d.len() == 0 {
        0
    } else {
        digits_value(d.drop_last()) * 10 + ((d.last() as u32) - ('0' as u32)) as nat
    }
}

/// The digits of `t` once an optional leading `+` is taken off.
pub open spec fn unsigned_digits(t: Seq<char>) -> Seq<char> {
    if t.len() > 0 && t[0] == '+' {
        t.drop_first()
    } else {
        t
    }
}

/// What `str::parse::<usize>` gives for `t`: an optional `+` followed by at least one
/// decimal digit, whose value fits in a `usize`.
pub open spec fn parse_usize_spec(t: Seq<char>) -> Option<usize> {
    let d = unsigned_digits(t);
    if d.len() > 0 && (forall|i: int| 0 <= i < d.len() ==> is_digit(#[trigger] d[i]))
        && digits_value(d) <= usize::MAX {
        Some(digits_value(d) as usize)
    } else {
        None
    }
}

/// What the status bar text `text` gives for each of its ", "-separated parts: the number
/// that the part's second word writes, where it writes one.
pub open spec fn cursor_position_parts(text: Seq<char>) -> Seq<Option<usize>> {
    comma_parts_from(text, 0).map_values(
        |p: Seq<char>|
            match second_word(p) {
                Some(w) => parse_usize_spec(w),
                None => None,
            },
    )
}

/// The cursor position that the status bar text `text` gives: `Ok((column, line))`
/// where it has exactly two parts and both write a number, each taken as an `i32` by
/// truncation; else `Err` with what each part gave (see `cursor_position_parts`).
pub open spec fn cursor_position_spec(text: Seq<char>) -> Result<(i32, i32), Seq<Option<usize>>> {
    let parts = cursor_position_parts(text);
    if parts.len() == 2 && parts[0] is Some && parts[1] is Some {
        Ok((parts[1]->0 as i32, parts[0]->0 as i32))
    } else {
        Err(parts)
    }
}

/// The ", " found from `from` is -1, or lies at or after `from` and really is ", ".
pub proof fn lemma_comma_space_range(s: Seq<char>, from: int)
    ensures
        comma_space_from(s, from) == -1 || (from <= comma_space_from(s, from)
            && comma_space_from(s, from) + 1 < s.len() && s[comma_space_from(s, from)] == ','
            && s[comma_space_from(s, from) + 1] == ' '),
    decreases s.len() - from,
{
    if !(from < 0 || from + 1 >= s.len()) && !(s[from] == ',' && s[from + 1] == ' ') {
        lemma_comma_space_range(s, from + 1);
    }
}

proof fn lemma_space_range(s: Seq<char>, from: int)
    requires
        0 <= from,
    ensures
        from <= space_from(s, from) <= s.len() || (from > s.len() && space_from(s, from)
            == s.len()),
        space_from(s, from) < s.len() ==> s[space_from(s, from)] == ' ',
    decreases s.len() - from,
{
    if !(from >= s.len()) && s[from] != ' ' {
        lemma_space_range(s, from + 1);
    }
}

fn find_comma_space(v: &Vec<char>, from: usize) -> (r: Option<usize>)
    requires
        from <= v@.len(),
    ensures
        match r {
            Some(k) => comma_space_from(v@, from as int) == k as int,
            None => comma_space_from(v@, from as int) == -1,
        },
{
    let mut i = from;
    while i < v.len() && i + 1 < v.len()
        invariant
            from <= i <= v@.len(),
            comma_space_from(v@, from as int) == comma_space_from(v@, i as int),
        decreases v@.len() - i,
    {
        if v[i] == ',' && v[i + 1] == ' ' {
            return Some(i);
        }
        i = i + 1;
    }
    None
}

fn find_space(v: &Vec<char>, from: usize) -> (r: usize)
    requires
        from <= v@.len(),
    ensures
        r as int == space_from(v@, from as int),
        from <= r <= v@.len(),
{
    let mut i = from;
    while i < v.len()
        invariant
            from <= i <= v@.len(),
            space_from(v@, from as int) == space_from(v@, i as int),
        decreases v@.len() - i,
    {
        if v[i] == ' ' {
            return i;
        }
        i = i + 1;
    }
    i
}

proof fn lemma_digits_value_monotone(d: Seq<char>, j: int)
    requires
        0 <= j <= d.len(),
        forall|i: int| 0 <= i < d.len() ==> is_digit(#[trigger] d[i]),
    ensures
        digits_value(d.subrange(0, j)) <= digits_value(d),
    decreases d.len(),
{
    if j < d.len() {
        assert(d.drop_last() == d.subrange(0, d.len() - 1));
        if j < d.len() {
            lemma_digits_value_monotone(d.drop_last(), j);
            assert(d.drop_last().subrange(0, j) =~= d.subrange(0, j));
        }
    } else {
        assert(d.subrange(0, j) =~= d);
    }
}

/// Parses `v[start..end]` as `str::parse::<usize>` does (see `parse_usize_spec`).
fn parse_usize_range(v: &Vec<char>, start: usize, end: usize) -> (r: Option<usize>)
    requires
        start <= end <= v@.len(),
    ensures
        r == parse_usize_spec(v@.subrange(start as int, end as int)),
{
    let ghost t = v@.subrange(start as int, end as int);
    let mut from = start;
    if start < end && v[start] == '+' {
        from = start + 1;
    }
    let ghost d = unsigned_digits(t);
    assert(d =~= v@.subrange(from as int, end as int));
    if from == end {
        return None;
    }
    let mut acc: usize = 0;
    let mut i = from;
    while i < end
        invariant
            start <= from <= i <= end <= v@.len(),
            d == v@.subrange(from as int, end as int),
            d == unsigned_digits(v@.subrange(start as int, end as int)),
            forall|j: int| from <= j < i ==> is_digit(#[trigger] v@[j]),
            acc as nat == digits_value(v@.subrange(from as int, i as int)),
        decreases end - i,
    {
        let c = v[i];
        if !('0' <= c && c <= '9') {
            assert(d[i - from] == v@[i as int]);
            assert(!is_digit(d[i - from]));
            return None;
        }
        let digit = (c as u32 - '0' as u32) as usize;
        let ghost prefix = v@.subrange(from as int, i + 1);
        assert(prefix.drop_last() =~= v@.subrange(from as int, i as int));
        assert(prefix.last() == c);
        assert(digits_value(prefix) == digits_value(v@.subrange(from as int, i as int)) * 10
            + digit);
        match acc.checked_mul(10) {
            Some(m) => match m.checked_add(digit) {
                Some(a) => {
                    acc = a;
                },
                None => {
                    proof {
                        assert(d.subrange(0, i + 1 - from) =~= prefix);
                        if forall|j: int| 0 <= j < d.len() ==> is_digit(#[trigger] d[j]) {
                            lemma_digits_value_monotone(d, i + 1 - from);
                        }
                    }
                    return None;
                },
            },
            None => {
                proof {
                    assert(d.subrange(0, i + 1 - from) =~= prefix);
                    if forall|j: int| 0 <= j < d.len() ==> is_digit(#[trigger] d[j]) {
                        lemma_digits_value_monotone(d, i + 1 - from);
                    }
                }
                return None;
            },
        }
        i = i + 1;
    }
    assert forall|j: int| 0 <= j < d.len() implies is_digit(#[trigger] d[j]) by {
        assert(d[j] == v@[from + j]);
    }
    Some(acc)
}

/// The number that the second word of `v[start..end]` writes, where it writes one.
fn second_word_number(v: &Vec<char>, start: usize, end: usize) -> (r: Option<usize>)
    requires
        start <= end <= v@.len(),
    ensures
        r == match second_word(v@.subrange(start as int, end as int)) {
            Some(w) => parse_usize_spec(w),
            None => None,
        },
{
    let ghost p = v@.subrange(start as int, end as int);
    let part = string_from_range(v, start, end);
    let pv = chars_of(part.as_str());
    assert(pv@ == p);
    let a = find_space(&pv, 0);
    if a >= pv.len() {
        return None;
    }
    let b = find_space(&pv, a + 1);
    parse_usize_range(&pv, a + 1, b)
}

/// The numbers that the parts of the status bar text `text` write (see
/// `cursor_position_parts`): `Ok((column, line))` where there are exactly two parts and
/// both write a number, each taken as an `i32` by truncation; else `Err` with what each
/// part gave.
pub fn parse_cursor_position(text: &str) -> (r: Result<(i32, i32), Vec<Option<usize>>>)
    ensures
        match r {
            Ok(p) => cursor_position_spec(text@) == Ok::<(i32, i32), Seq<Option<usize>>>(p),
            Err(got) => cursor_position_spec(text@) == Err::<(i32, i32), Seq<Option<usize>>>(
                got@,
            ),
        },
{
    let v = chars_of(text);
    let ghost s = v@;
    let mut got: Vec<Option<usize>> = Vec::new();
    let mut from: usize = 0;
    let ghost all = comma_parts_from(s, 0);
    assert(all =~= Seq::<Seq<char>>::empty() + comma_parts_from(s, 0));
    let ghost mut done: Seq<Seq<char>> = Seq::empty();
    loop
        invariant_except_break
            all == done + comma_parts_from(s, from as int),
        invariant
            s == v@,
            s == text@,
            from <= s.len(),
            all == comma_parts_from(s, 0),
            got@ == done.map_values(
                |p: Seq<char>|
                    match second_word(p) {
                        Some(w) => parse_usize_spec(w),
                        None => None,
                    },
            ),
        ensures
            got@ == all.map_values(
                |p: Seq<char>|
                    match second_word(p) {
                        Some(w) => parse_usize_spec(w),
                        None => None,
                    },
            ),
        decreases s.len() - from,
    {
        proof {
            lemma_comma_space_range(s, from as int);
        }
        match find_comma_space(&v, from) {
            Some(k) => {
                let n = second_word_number(&v, from, k);
                got.push(n);
                proof {
                    let piece = s.subrange(from as int, k as int);
                    assert(comma_parts_from(s, from as int) == seq![piece] + comma_parts_from(
                        s,
                        k + 2,
                    ));
                    done = done.push(piece);
                    assert(all =~= done + comma_parts_from(s, k + 2));
                }
                from = k + 2;
            },
            None => {
                let n = second_word_number(&v, from, v.len());
                got.push(n);
                proof {
                    let piece = s.subrange(from as int, s.len() as int);
                    assert(comma_parts_from(s, from as int) == seq![piece]);
                    done = done.push(piece);
                    assert(all =~= done);
                }
                break ;
            },
        }
    }
    if got.len() == 2 {
        match (got[0], got[1]) {
            (Some(line), Some(column)) => {
                #[verifier::truncate]
                let c = column as i32;
                #[verifier::truncate]
                let l = line as i32;
                return Ok((c, l));
            },
            _ => {},
        }
    }
    Err(got)
}

/// An editor tab: its title, and whether it is the selected one.
#[derive(Debug)]
pub struct EditorTab {
    pub title: String,
    pub active: bool,
}

impl EditorTab {
    /// The tab titled `title` in a tab strip whose selection reads `selected` (`None`
    /// where it could not be read): it is active when the selection is its title.
    pub fn new(title: String, selected: &Option<String>) -> (r: EditorTab)
        ensures
            r.title == title,
            r.active == (selected matches Some(s) && s@ == title@),
    {
        let active = match selected {
            Some(s) => *s == title,
            None => false,
        };
        EditorTab { title, active }
    }
}

/// The text shown in an editor group.
#[derive(Debug)]
pub struct EditorContent {
    pub content: String,
}

/// An editor group: its tabs, and its text where it could be read.
#[derive(Debug)]
pub struct EditorGroup {
    pub tabs: Vec<EditorTab>,
    pub content: Option<EditorContent>,
}

/// The editor area: its groups.
#[derive(Debug)]
pub struct EditorArea {
    pub groups: Vec<EditorGroup>,
}

impl EditorArea {
    /// Whether `automation_id` is that of the editor area ("workbench.parts.editor").
    pub fn is_expected_automation_id(automation_id: &str) -> (r: bool)
        ensures
            r == (automation_id@ == "workbench.parts.editor"@),
    {
        let expected = String::from_str("workbench.parts.editor");
        let got = String::from_str(automation_id);
        got == expected
    }
}

/// The kinds of side panel.
#[derive(Clone, Copy, Debug, PartialEq, Eq, Structural)]
pub enum SideTabKind {
    Explorer,
}

/// A side panel, open or closed.
#[derive(Clone, Copy, Debug, PartialEq, Eq, Structural)]
pub enum SideTab {
    Open { kind: SideTabKind },
    Closed { kind: SideTabKind },
}

/// The body of the window: the editor area and the side panel.
#[derive(Debug)]
pub struct VSCodeWindowBody {
    pub editor_area: EditorArea,
    pub right_tab: SideTab,
}

impl VSCodeWindowBody {
    /// The body with the given editor groups; the side panel is reported as the closed
    /// explorer.
    pub fn new(groups: Vec<EditorGroup>) -> (r: VSCodeWindowBody)
        ensures
            r.editor_area.groups == groups,
            r.right_tab == (SideTab::Closed { kind: SideTabKind::Explorer }),
    {
        VSCodeWindowBody {
            editor_area: EditorArea { groups },
            right_tab: SideTab::Closed { kind: SideTabKind::Explorer },
        }
    }
}

/// The status bar of the window: the text cursor's column (`x`) and line (`y`).
#[derive(Clone, Copy, Debug, PartialEq, Eq, Structural)]
pub struct VSCodeWindowFooter {
    pub cursor_x: i32,
    pub cursor_y: i32,
}

/// The title bar of the window (nothing is read of it).
#[derive(Clone, Copy, Debug, PartialEq, Eq, Structural)]
pub struct VSCodeWindowHeader {}

/// A Visual Studio Code window.
#[derive(Debug)]
pub struct VSCodeWindow {
    pub focused: bool,
    pub header: VSCodeWindowHeader,
    pub body: VSCodeWindowBody,
    pub footer: VSCodeWindowFooter,
}

/// The footer for the status bar text `text`, or what its parts gave where it does not
/// read as a cursor position (see `parse_cursor_position`).
pub fn resolve_footer(text: &str) -> (r: Result<VSCodeWindowFooter, Vec<Option<usize>>>)
    ensures
        match r {
            Ok(f) => cursor_position_spec(text@) == Ok::<(i32, i32), Seq<Option<usize>>>(
                (f.cursor_x, f.cursor_y),
            ),
            Err(got) => cursor_position_spec(text@) == Err::<(i32, i32), Seq<Option<usize>>>(
                got@,
            ),
        },
{
    match parse_cursor_position(text) {
        Ok((x, y)) => Ok(VSCodeWindowFooter { cursor_x: x, cursor_y: y }),
        Err(got) => Err(got),
    }
}

/// The char of the decimal digit `d`.
pub open spec fn digit_char(d: nat) -> char {
    (d + 48) as char
}

/// The decimal digits of `n`, without leading zeros.
pub open spec fn decimal(n: nat) -> Seq<char>
    decreases n,
{
    if n < 10 {
        seq![digit_char(n)]
    } else {
        decimal(n / 10).push(digit_char(n % 10))
    }
}

proof fn lemma_decimal(n: nat)
    ensures
        decimal(n).len() >= 1,
        forall|i: int| 0 <= i < decimal(n).len() ==> is_digit(#[trigger] decimal(n)[i]),
        digits_value(decimal(n)) == n,
    decreases n,
{
    let m = n % 10;
    assert(m < 10);
    assert(digit_char(m) as u32 == m + 48);
    assert(((digit_char(m) as u32) - ('0' as u32)) as nat == m);
    if n >= 10 {
        lemma_decimal(n / 10);
        let d = decimal(n);
        assert(d.drop_last() =~= decimal(n / 10));
        assert(forall|i: int|
            0 <= i < d.len() - 1 ==> #[trigger] d[i] == decimal(n / 10)[i]);
        assert((n / 10) * 10 + n % 10 == n) by (nonlinear_arith);
        assert(d.last() == digit_char(m));
        assert(digits_value(d) == digits_value(decimal(n / 10)) * 10 + m);
    } else {
        assert(n % 10 == n);
        let d = decimal(n);
        assert(d.drop_last() =~= Seq::<char>::empty());
        assert(digits_value(Seq::<char>::empty()) == 0);
        assert(d.last() == digit_char(m));
        assert(digits_value(d) == digits_value(d.drop_last()) * 10 + m);
    }
}

proof fn lemma_parse_decimal(n: nat)
    requires
        n <= usize::MAX,
    ensures
        parse_usize_spec(decimal(n)) == Some(n as usize),
{
    lemma_decimal(n);
    assert(is_digit(decimal(n)[0]));
    assert(unsigned_digits(decimal(n)) == decimal(n));
}

proof fn lemma_comma_skip(s: Seq<char>, from: int, to: int)
    requires
        0 <= from <= to,
        forall|k: int| from <= k < to && k < s.len() ==> s[k] != ',',
    ensures
        comma_space_from(s, from) == comma_space_from(s, to),
    decreases to - from,
{
    if from < to {
        if from + 1 >= s.len() {
        } else {
            lemma_comma_skip(s, from + 1, to);
        }
    }
}

proof fn lemma_comma_shift(s: Seq<char>, q: int, i: int)
    requires
        0 <= q <= s.len(),
        0 <= i,
    ensures
        comma_space_from(s, q + i) == (if comma_space_from(s.subrange(q, s.len() as int), i)
            == -1 {
            -1
        } else {
            q + comma_space_from(s.subrange(q, s.len() as int), i)
        }),
    decreases s.len() - q - i,
{
    let t = s.subrange(q, s.len() as int);
    if i + 1 < t.len() {
        assert(t[i] == s[q + i]);
        assert(t[i + 1] == s[q + i + 1]);
        if !(t[i] == ',' && t[i + 1] == ' ') {
            lemma_comma_shift(s, q, i + 1);
        }
    }
}

proof fn lemma_space_skip(s: Seq<char>, from: int, to: int)
    requires
        0 <= from <= to <= s.len(),
        forall|k: int| from <= k < to ==> s[k] != ' ',
    ensures
        space_from(s, from) == space_from(s, to),
    decreases to - from,
{
    if from < to {
        lemma_space_skip(s, from + 1, to);
    }
}

/// Law: the status bar text "Ln <line>, Col <column>", followed by nothing or by a
/// space and text without ", " (such as " (15 selected)"), gives the cursor position
/// `(column, line)`, each number written in decimal and taken as an `i32`.
pub proof fn lemma_status_text_gives_position(line: usize, column: usize, suffix: Seq<char>)
    requires
        suffix.len() == 0 || suffix[0] == ' ',
        comma_space_from(suffix, 0) == -1,
    ensures
        cursor_position_spec("Ln "@ + decimal(line as nat) + ", Col "@ + decimal(column as nat)
            + suffix) == Ok::<(i32, i32), Seq<Option<usize>>>(
            (#[verifier::truncate] (column as i32), #[verifier::truncate] (line as i32)),
        ),
{
    reveal_strlit("Ln ");
    reveal_strlit(", Col ");
    let dl = decimal(line as nat);
    let dc = decimal(column as nat);
    lemma_decimal(line as nat);
    lemma_decimal(column as nat);
    lemma_parse_decimal(line as nat);
    lemma_parse_decimal(column as nat);
    let a = "Ln "@ + dl;
    let r = "Col "@ + dc + suffix;
    let text = "Ln "@ + dl + ", Col "@ + dc + suffix;
    reveal_strlit("Col ");
    assert(text =~= a + seq![',', ' '] + r);
    let p = a.len() as int;
    assert(text[p] == ',' && text[p + 1] == ' ');
    assert forall|k: int| 0 <= k < p && k < text.len() implies text[k] != ',' by {
        if k >= 3 {
            assert(text[k] == dl[k - 3]);
            assert(is_digit(dl[k - 3]));
        }
    }
    lemma_comma_skip(text, 0, p);
    assert(comma_space_from(text, 0) == p);
    let q: int = p + 2 + 4 + dc.len();
    assert forall|k: int| p + 2 <= k < q && k < text.len() implies text[k] != ',' by {
        if k >= p + 6 {
            assert(text[k] == dc[k - p - 6]);
            assert(is_digit(dc[k - p - 6]));
        }
    }
    lemma_comma_skip(text, p + 2, q);
    assert(text.subrange(q, text.len() as int) =~= suffix);
    lemma_comma_shift(text, q, 0);
    assert(comma_space_from(text, p + 2) == -1);
    assert(comma_parts_from(text, p + 2) == seq![text.subrange(p + 2, text.len() as int)]);
    assert(text.subrange(0, p) =~= a);
    assert(text.subrange(p + 2, text.len() as int) =~= r);
    assert(comma_parts_from(text, 0) =~= seq![a, r]);
    assert forall|k: int| 3 <= k < a.len() implies a[k] != ' ' by {
        assert(a[k] == dl[k - 3]);
        assert(is_digit(dl[k - 3]));
    }
    lemma_space_skip(a, 3, a.len() as int);
    assert(space_from(a, 2) == 2);
    assert(space_from(a, 1) == 2);
    assert(space_from(a, 0) == 2);
    assert(a.subrange(3, a.len() as int) =~= dl);
    assert(second_word(a) == Some(dl));
    let e: int = 4 + dc.len() as int;
    assert forall|k: int| 4 <= k < e implies r[k] != ' ' by {
        assert(r[k] == dc[k - 4]);
        assert(is_digit(dc[k - 4]));
    }
    lemma_space_skip(r, 4, e);
    assert(space_from(r, 3) == 3);
    assert(space_from(r, 2) == 3);
    assert(space_from(r, 1) == 3);
    assert(space_from(r, 0) == 3);
    if suffix.len() > 0 {
        assert(r[e] == ' ');
    }
    assert(space_from(r, 4) == e);
    assert(r.subrange(4, e) =~= dc);
    assert(second_word(r) == Some(dc));
    let parts = cursor_position_parts(text);
    assert(parts[0] == Some(line));
    assert(parts[1] == Some(column));
}

/// The child positions from a Visual Studio Code window to the element that holds its
/// body and its status bar.
pub fn window_content_path() -> (r: Vec<usize>)
    ensures
        r@ == seq![0usize, 0, 0, 0, 0, 1],
{
    vec![0, 0, 0, 0, 0, 1]
}

/// The child positions from the window's content to its body.
pub fn body_path() -> (r: Vec<usize>)
    ensures
        r@ == seq![1usize, 0, 1],
{
    vec![1, 0, 1]
}

/// The child positions from the window's content to its status bar.
pub fn footer_path() -> (r: Vec<usize>)
    ensures
        r@ == seq![2usize, 0],
{
    vec![2, 0]
}

/// The child positions from the body to the editor area.
pub fn editor_area_path() -> (r: Vec<usize>)
    ensures
        r@ == seq![0usize, 0, 1, 0, 0],
{
    vec![0, 0, 1, 0, 0]
}

/// The child positions from the editor area to the element whose children are the
/// editor groups.
pub fn editor_groups_path() -> (r: Vec<usize>)
    ensures
        r@ == seq![0usize, 0, 0, 1],
{
    vec![0, 0, 0, 1]
}

/// The child positions from an editor group to its tab strip.
pub fn tab_container_path() -> (r: Vec<usize>)
    ensures
        r@ == seq![0usize, 0, 0],
{
    vec![0, 0, 0]
}

/// The child positions from an editor group to the element that shows its text.
pub fn group_content_path() -> (r: Vec<usize>)
    ensures
        r@ == seq![1usize, 0, 0, 1],
{
    vec![1, 0, 0, 1]
}

/// What was read of one editor group.
#[derive(Debug)]
pub struct GroupRead {
    /// `None` where the tab strip could not be reached or its selection could not be
    /// read; else the selection (`None` where it is not text) and the name of each tab,
    /// in walk order (`None` where it could not be read).
    pub tabs: Option<(Option<String>, Vec<Option<String>>)>,
    /// `None` where the element that shows the text could not be reached; else its text
    /// (`None` where it could not be read).
    pub content: Option<Option<String>>,
}

/// An editor tab as a value.
pub struct TabView {
    pub title: Seq<char>,
    pub active: bool,
}

/// An editor group as a value.
pub struct GroupView {
    pub tabs: Seq<TabView>,
    pub content: Option<Seq<char>>,
}

/// The value of a tab.
pub open spec fn tab_view(t: EditorTab) -> TabView {
    TabView { title: t.title@, active: t.active }
}

/// The value of a group.
pub open spec fn group_view(g: EditorGroup) -> GroupView {
    GroupView {
        tabs: g.tabs@.map_values(|t: EditorTab| tab_view(t)),
        content: match g.content {
            Some(c) => Some(c.content@),
            None => None,
        },
    }
}

/// The tabs of a strip whose selection reads `selected`, from the names read in walk
/// order: a tab whose name could not be read is left out, and a tab is active exactly
/// when the selection is its title.
pub open spec fn read_tabs(selected: Option<String>, names: Seq<Option<String>>) -> Seq<TabView>
    decreases names.len(),
{
    if names.len() == 0 {
        seq![]
    } else {
        let rest = read_tabs(selected, names.drop_last());
        match names.last() {
            Some(n) => rest.push(
                TabView {
                    title: n@,
                    active: selected matches Some(s) && s@ == n@,
                },
            ),
            None => rest,
        }
    }
}

/// The groups kept from what was read, in order: a group is kept where its tab strip,
/// its selection and the element that shows its text could all be reached.
pub open spec fn kept_groups(reads: Seq<GroupRead>) -> Seq<GroupView>
    decreases reads.len(),
{
    if reads.len() == 0 {
        seq![]
    } else {
        let rest = kept_groups(reads.drop_last());
        let g = reads.last();
        match (g.tabs, g.content) {
            (Some((selected, names)), Some(content)) => rest.push(
                GroupView {
                    tabs: read_tabs(selected, names@),
                    content: match content {
                        Some(c) => Some(c@),
                        None => None,
                    },
                },
            ),
            _ => rest,
        }
    }
}

fn assemble_tabs(selected: &Option<String>, names: Vec<Option<String>>) -> (r: Vec<EditorTab>)
    ensures
        r@.map_values(|t: EditorTab| tab_view(t)) == read_tabs(*selected, names@),
{
    let ghost all = names@;
    let mut pending = names;
    let mut r: Vec<EditorTab> = Vec::new();
    let n = pending.len();
    let mut i: usize = 0;
    assert(pending@ =~= all.skip(0));
    assert(all.take(0) =~= Seq::<Option<String>>::empty());
    assert(r@.map_values(|t: EditorTab| tab_view(t)) =~= Seq::<TabView>::empty());
    while i < n
        invariant
            n == all.len(),
            i <= n,
            pending@ == all.skip(i as int),
            r@.map_values(|t: EditorTab| tab_view(t)) == read_tabs(*selected, all.take(i as int)),
        decreases n - i,
    {
        let item = pending.remove(0);
        assert(item == all[i as int]);
        assert(all.take(i + 1).drop_last() =~= all.take(i as int));
        assert(all.take(i + 1).last() == item);
        let ghost before = r@;
        match item {
            Some(title) => {
                let tab = EditorTab::new(title, selected);
                r.push(tab);
                assert(r@.map_values(|t: EditorTab| tab_view(t)) =~= before.map_values(
                    |t: EditorTab| tab_view(t),
                ).push(tab_view(tab)));
            },
            None => {},
        }
        i = i + 1;
        assert(pending@ =~= all.skip(i as int));
    }
    assert(all.take(n as int) =~= all);
    r
}

/// The body of a Visual Studio Code window from what was read of it: an error where the
/// editor area's automation id is not "workbench.parts.editor"; else the groups kept
/// (see `kept_groups`), with the side panel reported as the closed explorer.
pub fn assemble_body(editor_area_id: &str, groups: Vec<GroupRead>) -> (r: Result<
    VSCodeWindowBody,
    AppResolveError,
>)
    ensures
        (editor_area_id@ != "workbench.parts.editor"@) <==> r is Err,
        r matches Err(e) ==> e is BadStructure,
        r matches Ok(b) ==> b.right_tab == (SideTab::Closed { kind: SideTabKind::Explorer })
            && b.editor_area.groups@.map_values(|g: EditorGroup| group_view(g)) == kept_groups(
            groups@,
        ),
{
    if !EditorArea::is_expected_automation_id(editor_area_id) {
        let mut msg = String::from_str("workbench_parts_editor has wrong automation id, got ");
        msg.append(editor_area_id);
        return Err(AppResolveError::BadStructure(msg));
    }
    let ghost all = groups@;
    let mut pending = groups;
    let mut kept: Vec<EditorGroup> = Vec::new();
    let n = pending.len();
    let mut i: usize = 0;
    assert(pending@ =~= all.skip(0));
    assert(all.take(0) =~= Seq::<GroupRead>::empty());
    assert(kept@.map_values(|g: EditorGroup| group_view(g)) =~= Seq::<GroupView>::empty());
    while i < n
        invariant
            n == all.len(),
            i <= n,
            pending@ == all.skip(i as int),
            kept@.map_values(|g: EditorGroup| group_view(g)) == kept_groups(all.take(i as int)),
        decreases n - i,
    {
        let item = pending.remove(0);
        assert(item == all[i as int]);
        assert(all.take(i + 1).drop_last() =~= all.take(i as int));
        assert(all.take(i + 1).last() == item);
        let ghost before = kept@;
        match item {
            GroupRead { tabs: Some((selected, names)), content: Some(content) } => {
                let tabs = assemble_tabs(&selected, names);
                let content = match content {
                    Some(c) => Some(EditorContent { content: c }),
                    None => None,
                };
                let g = EditorGroup { tabs, content };
                assert(group_view(g).tabs == read_tabs(selected, names@));
                kept.push(g);
                assert(kept@.map_values(|g: EditorGroup| group_view(g)) =~= before.map_values(
                    |g: EditorGroup| group_view(g),
                ).push(group_view(g)));
            },
            _ => {},
        }
        i = i + 1;
        assert(pending@ =~= all.skip(i as int));
    }
    assert(all.take(n as int) =~= all);
    Ok(VSCodeWindowBody::new(kept))
}

} // verus!
