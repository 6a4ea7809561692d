//! The text of an element tree: one line per element, indented two spaces per level,
//! each element before its descendants.

use vstd::prelude::*;

verus! {

/// An element's label and its children's trees, in walk order.
#[derive(Debug)]
pub struct LabelTree {
    pub label: String,
    pub children: Vec<LabelTree>,
}

/// The lines of `n` and its descendants, `n`'s line indented by `indent`.
pub open spec fn tree_text(n: LabelTree, indent: Seq<char>) -> Seq<char>
    decreases n, 0nat,
{
    indent + n.label@ + seq!['\n'] + forest_text(n.children@, indent + seq![' ', ' '])
}

/// The lines of each tree of `s` in turn, each indented by `indent`.
pub open spec fn forest_text(s: Seq<LabelTree>, indent: Seq<char>) -> Seq<char>
    decreases s, 1nat,
{
    if s.len() == 0 {
        seq![]
    } else {
        forest_text(s.drop_last(), indent) + tree_text(s.last(), indent)
    }
}

/// The number of labels in `n`'s tree.
pub open spec fn tree_size(n: LabelTree) -> nat
    decreases n, 0nat,
{
    1 + forest_size(n.children@)
}

/// The number of labels in the trees of `s`.
pub open spec fn forest_size(s: Seq<LabelTree>) -> nat
    decreases s, 1nat,
{
    if s.len() == 0 {
        0
    } else {
        forest_size(s.drop_last()) + tree_size(s.last())
    }
}

proof fn lemma_tree_within_forest(s: Seq<LabelTree>, i: int)
    requires
        0 <= i < s.len(),
    ensures
        tree_size(s[i]) <= forest_size(s),
    decreases s.len(),
{
    if i < s.len() - 1 {
        lemma_tree_within_forest(s.drop_last(), i);
    }
}

fn append_tree(out: &mut String, n: &LabelTree, indent: &String)
    ensures
        final(out)@ == old(out)@ + tree_text(*n, indent@),
    decreases tree_size(*n), 0nat,
{
    out.append(indent.as_str());
    out.append(n.label.as_str());
    out.append("\n");
    let mut deeper = indent.clone();
    deeper.append("  ");
    assert(deeper@ == indent@ + seq![' ', ' ']) by {
        reveal_strlit("  ");
    }
    proof {
        reveal_strlit("\n");
        assert("\n"@ =~= seq!['\n']);
    }
    append_forest(out, &n.children, &deeper);
    assert(final(out)@ =~= old(out)@ + tree_text(*n, indent@));
}

fn append_forest(out: &mut String, kids: &Vec<LabelTree>, indent: &String)
    ensures
        final(out)@ == old(out)@ + forest_text(kids@, indent@),
    decreases forest_size(kids@), 1nat,
{
    let ghost start = out@;
    let mut i: usize = 0;
    assert(kids@.take(0) =~= Seq::<LabelTree>::empty());
    while i < kids.len()
        invariant
            i <= kids@.len(),
            out@ == start + forest_text(kids@.take(i as int), indent@),
        decreases kids@.len() - i,
    {
        proof {
            lemma_tree_within_forest(kids@, i as int);
        }
        let ghost before = out@;
        append_tree(out, &kids[i], indent);
        proof {
            assert(kids@.take(i + 1).drop_last() =~= kids@.take(i as int));
            assert(kids@.take(i + 1).last() == kids@[i as int]);
        }
        i = i + 1;
        assert(out@ =~= start + forest_text(kids@.take(i as int), indent@));
    }
    assert(kids@.take(i as int) =~= kids@);
}

/// The text of the tree `root` (see `tree_text`), its root's line not indented.
pub fn get_tree_string(root: &LabelTree) -> (r: String)
    ensures
        r@ == tree_text(*root, seq![]),
{
    let mut out = String::new();
    let indent = String::new();
    append_tree(&mut out, root, &indent);
    assert(out@ =~= tree_text(*root, seq![]));
    out
}

/// What was read of an element for its label, each `None` where it could not be read:
/// the debug text of its name, control type, class name, runtime id and bounding
/// rectangle.
#[derive(Debug)]
pub struct LabelParts {
    pub name: Option<String>,
    pub control_type: Option<String>,
    pub class_name: Option<String>,
    pub runtime_id: Option<String>,
    pub rect: Option<String>,
}

/// `o`'s text, or `default` where it is `None`.
pub open spec fn or_default(o: Option<String>, default: Seq<char>) -> Seq<char> {
    match o {
        Some(s) => s@,
        None => default,
    }
}

fn append_or(out: &mut String, o: &Option<String>, default: &str)
    ensures
        final(out)@ == old(out)@ + or_default(*o, default@),
{
    match o {
        Some(s) => out.append(s.as_str()),
        None => out.append(default),
    }
}

/// The label of an element: "name=N control_type=T class_name=C runtime_id=I rect=R",
/// where what could not be read shows as "(null)", or "unknown control type" for the
/// control type.
pub fn format_tree_label(parts: &LabelParts) -> (r: String)
    ensures
        r@ == "name="@ + or_default(parts.name, "(null)"@) + " control_type="@ + or_default(
            parts.control_type,
            "unknown control type"@,
        ) + " class_name="@ + or_default(parts.class_name, "(null)"@) + " runtime_id="@
            + or_default(parts.runtime_id, "(null)"@) + " rect="@ + or_default(
            parts.rect,
            "(null)"@,
        ),
{
    let mut out = String::from_str("name=");
    append_or(&mut out, &parts.name, "(null)");
    out.append(" control_type=");
    append_or(&mut out, &parts.control_type, "unknown control type");
    out.append(" class_name=");
    append_or(&mut out, &parts.class_name, "(null)");
    out.append(" runtime_id=");
    append_or(&mut out, &parts.runtime_id, "(null)");
    out.append(" rect=");
    append_or(&mut out, &parts.rect, "(null)");
    out
}

} // verus!
