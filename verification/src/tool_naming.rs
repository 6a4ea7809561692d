//! Display names and texture paths of tools, derived from their source file paths.

use vstd::prelude::*;

use crate::path::file_stem;
use crate::path::file_stem_of;
use crate::path::lemma_stem_ignores_dirs_and_extension;
use crate::path::is_separator;
use crate::path::plain_file_name;
use crate::path::relative_dir;
use crate::text::append_chars;
use crate::text::char_uppercase;
use crate::text::chars_of;
use crate::text::push_char;
use crate::text::uppercase_of;

verus! {

/// `s` with each `_` turned into a space and the first char of each `_`-separated
/// word replaced by its uppercase mapping; `word_start` says whether `s` begins a word.
pub open spec fn title_words(s: Seq<char>, word_start: bool) -> Seq<char>
    decreases s.len(),
{
    if s.len() == 0 {
        seq![]
    } else if s[0] == '_' {
        seq![' '] + title_words(s.drop_first(), true)
    } else if word_start {
        char_uppercase(s[0]) + title_words(s.drop_first(), false)
    } else {
        seq![s[0]] + title_words(s.drop_first(), false)
    }
}

/// The file stem of `p`, or the empty sequence when `p` has no file name.
pub open spec fn stem_or_empty(p: Seq<char>) -> Seq<char> {
    match file_stem_of(p) {
        Some(s) => s,
        None => seq![],
    }
}

/// `s` with each `_` turned into a space and the first char of each word replaced by
/// `upper[i]`, the uppercase form given for the char at `i`; `word_start` says whether
/// `s` begins a word.
pub open spec fn title_words_given(s: Seq<char>, upper: Seq<Seq<char>>, word_start: bool) -> Seq<
    char,
>
    decreases s.len(),
{
    if s.len() == 0 {
        seq![]
    } else if s[0] == '_' {
        seq![' '] + title_words_given(s.drop_first(), upper.drop_first(), true)
    } else if word_start {
        upper[0] + title_words_given(s.drop_first(), upper.drop_first(), false)
    } else {
        seq![s[0]] + title_words_given(s.drop_first(), upper.drop_first(), false)
    }
}

/// Giving each char its uppercase mapping gives the title-cased form.
pub proof fn lemma_title_words_given(s: Seq<char>, upper: Seq<Seq<char>>, word_start: bool)
    requires
        upper.len() == s.len(),
        forall|i: int| 0 <= i < s.len() ==> #[trigger] upper[i] == char_uppercase(s[i]),
    ensures
        title_words_given(s, upper, word_start) == title_words(s, word_start),
    decreases s.len(),
{
    if s.len() > 0 {
        assert forall|i: int| 0 <= i < s.len() - 1 implies #[trigger] upper.drop_first()[i]
            == char_uppercase(s.drop_first()[i]) by {
            assert(upper.drop_first()[i] == upper[i + 1]);
        }
        lemma_title_words_given(s.drop_first(), upper.drop_first(), true);
        lemma_title_words_given(s.drop_first(), upper.drop_first(), false);
    }
}

/// The title-cased form of `s`, given the uppercase form `upper[i]` of each char
/// `s[i]` (see `title_words_given`).
pub fn title_case_with(s: &str, upper: &Vec<String>) -> (r: String)
    requires
        upper@.len() == s@.len(),
    ensures
        r@ == title_words_given(s@, upper@.map_values(|u: String| u@), true),
{
    let ghost ups = upper@.map_values(|u: String| u@);
    let v = chars_of(s);
    let mut r = String::new();
    let mut start = true;
    let mut i: usize = 0;
    assert(v@.skip(0) =~= v@);
    assert(ups.skip(0) =~= ups);
    while i < v.len()
        invariant
            v@ == s@,
            ups == upper@.map_values(|u: String| u@),
            ups.len() == v@.len(),
            i <= v@.len(),
            title_words_given(s@, ups, true) == r@ + title_words_given(
                v@.skip(i as int),
                ups.skip(i as int),
                start,
            ),
        decreases v@.len() - i,
    {
        let c = v[i];
        let ghost rest = v@.skip(i as int);
        let ghost rest_up = ups.skip(i as int);
        let ghost old_r = r@;
        let ghost old_start = start;
        assert(rest.drop_first() =~= v@.skip(i + 1));
        assert(rest_up.drop_first() =~= ups.skip(i + 1));
        assert(rest[0] == c);
        assert(rest_up[0] == upper@[i as int]@);
        if c == '_' {
            push_char(&mut r, ' ');
            start = true;
        } else if start {
            let uc = chars_of(upper[i].as_str());
            append_chars(&mut r, &uc);
            start = false;
        } else {
            push_char(&mut r, c);
            start = false;
        }
        assert(old_r + title_words_given(rest, rest_up, old_start) =~= r@ + title_words_given(
            v@.skip(i + 1),
            ups.skip(i + 1),
            start,
        ));
        i = i + 1;
    }
    assert(v@.skip(i as int) =~= Seq::<char>::empty());
    assert(r@ + Seq::<char>::empty() =~= r@);
    r
}

/// The title-cased form of `s` (see `title_words`).
pub fn title_case(s: &str) -> (r: String)
    ensures
        r@ == title_words(s@, true),
{
    let v = chars_of(s);
    let mut upper: Vec<String> = Vec::new();
    let mut i: usize = 0;
    while i < v.len()
        invariant
            v@ == s@,
            i <= v@.len(),
            upper@.len() == i,
            forall|j: int| 0 <= j < i ==> #[trigger] upper@[j]@ == char_uppercase(v@[j]),
        decreases v@.len() - i,
    {
        upper.push(uppercase_of(v[i]));
        i = i + 1;
    }
    let r = title_case_with(s, &upper);
    proof {
        let ups = upper@.map_values(|u: String| u@);
        assert forall|j: int| 0 <= j < s@.len() implies #[trigger] ups[j] == char_uppercase(
            s@[j],
        ) by {}
        lemma_title_words_given(s@, ups, true);
    }
    r
}

/// Formats a tool's display name from its source path: the file stem, each `_` made a
/// space and each word's first char uppercased. A path with no file name gives "".
pub fn format_tool_name_from_source(file_path: &str) -> (r: String)
    ensures
        r@ == title_words(stem_or_empty(file_path@), true),
{
    match file_stem(file_path) {
        Some(stem) => title_case(stem.as_str()),
        None => {
            let r = String::new();
            assert(title_words(Seq::<char>::empty(), true) =~= Seq::<char>::empty());
            r
        },
    }
}

/// Formats a tool's texture path from its source path: `textures/tools/<stem>.png`.
pub fn format_tool_image_from_source(file_path: &str) -> (r: String)
    ensures
        r@ == "textures/tools/"@ + stem_or_empty(file_path@) + ".png"@,
{
    let stem = match file_stem(file_path) {
        Some(s) => s,
        None => String::new(),
    };
    let mut r = String::from_str("textures/tools/");
    r.append(stem.as_str());
    r.append(".png");
    r
}

/// Law: a tool's name and texture depend only on the file stem of its source path: the
/// directories and the extension of `dir/name.ext` (or `dir\name.ext`) are dropped.
pub proof fn lemma_tool_name_ignores_dirs_and_extension(
    dir: Seq<char>,
    sep: char,
    name: Seq<char>,
    ext: Seq<char>,
)
    requires
        is_separator(sep),
        relative_dir(dir),
        plain_file_name(name, ext),
    ensures
        title_words(stem_or_empty(dir + seq![sep] + name + seq!['.'] + ext), true) == title_words(
            stem_or_empty(name),
            true,
        ),
        stem_or_empty(dir + seq![sep] + name + seq!['.'] + ext) == stem_or_empty(name),
{
    lemma_stem_ignores_dirs_and_extension(dir, sep, name, ext);
}

} // verus!
