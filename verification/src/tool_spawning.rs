//! How a tool is described when it is spawned into a toolbelt: its name and texture,
//! guessed from the path of the source file that defines it, and whether it starts
//! active.

use vstd::prelude::*;

use crate::text::chars_of;
use crate::text::string_from_range;
use crate::tool_naming::stem_or_empty;
use crate::tool_naming::title_case;
use crate::tool_naming::title_words;
use crate::path::file_stem;

verus! {

/// `s` with every trailing repetition of `pat` taken off (`str::trim_end_matches`).
pub open spec fn trim_end_all(s: Seq<char>, pat: Seq<char>) -> Seq<char>
    decreases s.len(),
{
    if pat.len() > 0 && s.len() >= pat.len() && s.subrange(s.len() - pat.len(), s.len() as int)
        == pat {
        trim_end_all(s.subrange(0, s.len() - pat.len()), pat)
    } else {
        s
    }
}

/// `s` with every leading repetition of `pat` taken off (`str::trim_start_matches`).
pub open spec fn trim_start_all(s: Seq<char>, pat: Seq<char>) -> Seq<char>
    decreases s.len(),
{
    if pat.len() > 0 && s.len() >= pat.len() && s.subrange(0, pat.len() as int) == pat {
        trim_start_all(s.subrange(pat.len() as int, s.len() as int), pat)
    } else {
        s
    }
}

/// The tool's base name in the source path `p`: the file stem without trailing
/// "_plugin" and then "_populate", and without leading "spawn_".
pub open spec fn clean_name_of(p: Seq<char>) -> Seq<char> {
    trim_start_all(
        trim_end_all(trim_end_all(stem_or_empty(p), "_plugin"@), "_populate"@),
        "spawn_"@,
    )
}

/// Whether `v[at..at + pat.len()]` is `pat`.
fn holds_at(v: &Vec<char>, at: usize, pat: &Vec<char>) -> (r: bool)
    requires
        at + pat@.len() <= v@.len(),
    ensures
        r == (v@.subrange(at as int, at + pat@.len()) == pat@),
{
    let mut i: usize = 0;
    while i < pat.len()
        invariant
            at + pat@.len() <= v.len(),
            i <= pat@.len(),
            forall|j: int| 0 <= j < i ==> v@[at + j] == pat@[j],
        decreases pat@.len() - i,
    {
        if v[at + i] != pat[i] {
            assert(v@.subrange(at as int, at + pat@.len())[i as int] != pat@[i as int]);
            return false;
        }
        i = i + 1;
    }
    assert(v@.subrange(at as int, at + pat@.len()) =~= pat@);
    true
}

/// The end of `v[start..end]` once every trailing repetition of `pat` is taken off.
fn trimmed_end(v: &Vec<char>, start: usize, end: usize, pat: &str) -> (r: usize)
    requires
        start <= end <= v@.len(),
    ensures
        start <= r <= end,
        v@.subrange(start as int, r as int) == trim_end_all(
            v@.subrange(start as int, end as int),
            pat@,
        ),
{
    let p = chars_of(pat);
    let k = p.len();
    let mut e = end;
    if k == 0 {
        return end;
    }
    while e - start >= k && holds_at(v, e - k, &p)
        invariant
            start <= e <= end <= v@.len(),
            k == p@.len(),
            p@ == pat@,
            k > 0,
            trim_end_all(v@.subrange(start as int, end as int), pat@) == trim_end_all(
                v@.subrange(start as int, e as int),
                pat@,
            ),
        decreases e,
    {
        let ghost s = v@.subrange(start as int, e as int);
        assert(s.subrange(s.len() - k, s.len() as int) =~= v@.subrange(e - k, e as int));
        assert(s.subrange(0, s.len() - k) =~= v@.subrange(start as int, e - k));
        e = e - k;
    }
    proof {
        let s = v@.subrange(start as int, e as int);
        if s.len() >= k {
            assert(s.subrange(s.len() - k, s.len() as int) =~= v@.subrange(e - k, e as int));
        }
    }
    e
}

/// The start of `v[start..end]` once every leading repetition of `pat` is taken off.
fn trimmed_start(v: &Vec<char>, start: usize, end: usize, pat: &str) -> (r: usize)
    requires
        start <= end <= v@.len(),
    ensures
        start <= r <= end,
        v@.subrange(r as int, end as int) == trim_start_all(
            v@.subrange(start as int, end as int),
            pat@,
        ),
{
    let p = chars_of(pat);
    let k = p.len();
    let mut b = start;
    if k == 0 {
        return start;
    }
    while end - b >= k && holds_at(v, b, &p)
        invariant
            start <= b <= end <= v@.len(),
            k == p@.len(),
            p@ == pat@,
            k > 0,
            trim_start_all(v@.subrange(start as int, end as int), pat@) == trim_start_all(
                v@.subrange(b as int, end as int),
                pat@,
            ),
        decreases end - b,
    {
        let ghost s = v@.subrange(b as int, end as int);
        assert(s.subrange(0, k as int) =~= v@.subrange(b as int, b + k));
        assert(s.subrange(k as int, s.len() as int) =~= v@.subrange(b + k, end as int));
        b = b + k;
    }
    proof {
        let s = v@.subrange(b as int, end as int);
        if s.len() >= k {
            assert(s.subrange(0, k as int) =~= v@.subrange(b as int, b + k));
        }
    }
    b
}

/// The tool's base name in the source path `file_path` (see `clean_name_of`).
pub fn clean_name(file_path: &str) -> (r: String)
    ensures
        r@ == clean_name_of(file_path@),
{
    let stem = match file_stem(file_path) {
        Some(s) => s,
        None => String::new(),
    };
    let v = chars_of(stem.as_str());
    assert(v@ == stem_or_empty(file_path@));
    let e1 = trimmed_end(&v, 0, v.len(), "_plugin");
    let e2 = trimmed_end(&v, 0, e1, "_populate");
    let b = trimmed_start(&v, 0, e2, "spawn_");
    assert(v@.subrange(0, v@.len() as int) =~= v@);
    string_from_range(&v, b, e2)
}

/// The display name guessed from the source path `file_path`: its base name (see
/// `clean_name_of`) with each `_` made a space and each word's first char uppercased.
pub fn format_tool_name_from_source(file_path: &str) -> (r: String)
    ensures
        r@ == title_words(clean_name_of(file_path@), true),
{
    let name = clean_name(file_path);
    title_case(name.as_str())
}

/// The texture path guessed from the source path `file_path`:
/// `textures/tools/<base name>.<extension>`.
pub fn format_tool_image_from_source(file_path: &str, extension: &str) -> (r: String)
    ensures
        r@ == "textures/tools/"@ + clean_name_of(file_path@) + "."@ + extension@,
{
    let name = clean_name(file_path);
    let mut r = String::from_str("textures/tools/");
    r.append(name.as_str());
    r.append(".");
    r.append(extension);
    r
}

/// Whether a tool starts active.
#[derive(Clone, Copy, Debug, PartialEq, Eq, Structural)]
pub enum StartingState {
    Active,
    Inactive,
}

/// The marker of an active tool.
#[derive(Clone, Copy, Debug, PartialEq, Eq, Structural)]
pub struct ActiveTool;

impl StartingState {
    /// The active marker, for a tool that starts active.
    pub fn as_active(&self) -> (r: Option<ActiveTool>)
        ensures
            r is Some <==> *self is Active,
    {
        match self {
            StartingState::Active => Some(ActiveTool),
            StartingState::Inactive => None,
        }
    }
}

/// How a tool is described when it is spawned.
#[derive(Debug)]
pub struct ToolSpawnConfig {
    pub name: String,
    pub description: String,
    pub texture: Option<String>,
    pub starting_state: StartingState,
}

impl ToolSpawnConfig {
    /// An unnamed tool with no texture, starting active.
    pub fn new() -> (r: ToolSpawnConfig)
        ensures
            r.name@ == "Unnamed Tool"@,
            r.description@ == "Who knows what this does?"@,
            r.texture is None,
            r.starting_state == StartingState::Active,
    {
        ToolSpawnConfig {
            name: String::from_str("Unnamed Tool"),
            description: String::from_str("Who knows what this does?"),
            texture: None,
            starting_state: StartingState::Active,
        }
    }

    /// The same tool named `name`.
    pub fn with_name(self, name: String) -> (r: ToolSpawnConfig)
        ensures
            r.name == name,
            r.description == self.description,
            r.texture == self.texture,
            r.starting_state == self.starting_state,
    {
        ToolSpawnConfig { name, ..self }
    }

    /// The same tool described as `description`.
    pub fn with_description(self, description: &str) -> (r: ToolSpawnConfig)
        ensures
            r.name == self.name,
            r.description@ == description@,
            r.texture == self.texture,
            r.starting_state == self.starting_state,
    {
        ToolSpawnConfig { description: String::from_str(description), ..self }
    }

    /// The same tool named after its source path (see `format_tool_name_from_source`).
    pub fn guess_name(self, file_path: &str) -> (r: ToolSpawnConfig)
        ensures
            r.name@ == title_words(clean_name_of(file_path@), true),
            r.description == self.description,
            r.texture == self.texture,
            r.starting_state == self.starting_state,
    {
        ToolSpawnConfig { name: format_tool_name_from_source(file_path), ..self }
    }

    /// The same tool with the texture guessed from its source path (see
    /// `format_tool_image_from_source`).
    pub fn guess_image(self, file_path: &str, extension: &str) -> (r: ToolSpawnConfig)
        ensures
            r.texture matches Some(t) && t@ == "textures/tools/"@ + clean_name_of(file_path@)
                + "."@ + extension@,
            r.name == self.name,
            r.description == self.description,
            r.starting_state == self.starting_state,
    {
        ToolSpawnConfig {
            texture: Some(format_tool_image_from_source(file_path, extension)),
            ..self
        }
    }

    /// The same tool with the texture `textures/tools/<file_name>`.
    pub fn with_asset_image(self, file_name: &str) -> (r: ToolSpawnConfig)
        ensures
            r.texture matches Some(t) && t@ == "textures/tools/"@ + file_name@,
            r.name == self.name,
            r.description == self.description,
            r.starting_state == self.starting_state,
    {
        let mut t = String::from_str("textures/tools/");
        t.append(file_name);
        ToolSpawnConfig { texture: Some(t), ..self }
    }

    /// The same tool starting as `state` says.
    pub fn with_starting_state(self, state: StartingState) -> (r: ToolSpawnConfig)
        ensures
            r.starting_state == state,
            r.name == self.name,
            r.description == self.description,
            r.texture == self.texture,
    {
        ToolSpawnConfig { starting_state: state, ..self }
    }
}

} // verus!
