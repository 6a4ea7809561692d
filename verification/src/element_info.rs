//! What is known of a UI element, its children, and the path of child positions that
//! leads to it from the root of the tree (its drill id).

use vstd::prelude::*;

verus! {

/// A rectangle with integer corners: `min` is its left-top corner, `max` its
/// right-bottom one.
#[derive(Clone, Copy, Debug, PartialEq, Eq, Structural)]
pub struct IRect {
    pub min_x: i32,
    pub min_y: i32,
    pub max_x: i32,
    pub max_y: i32,
}

/// Where an element stands in the tree.
#[derive(Debug)]
pub enum DrillId {
    /// The root of the tree.
    Root,
    /// Not known yet.
    Unknown,
    /// The child positions from the root down to the element.
    Child(Vec<usize>),
}

/// A drill id as a value.
pub enum DrillPath {
    Root,
    Unknown,
    Child(Seq<usize>),
}

impl View for DrillId {
    type V = DrillPath;

    open spec fn view(&self) -> DrillPath {
        match self {
            DrillId::Root => DrillPath::Root,
            DrillId::Unknown => DrillPath::Unknown,
            DrillId::Child(p) => DrillPath::Child(p@),
        }
    }
}

/// What was read of an element, with the children that were gathered (`None` where
/// they were not asked for).
#[derive(Debug)]
pub struct ElementInfo {
    pub name: String,
    pub bounding_rect: IRect,
    pub control_type: i32,
    pub localized_control_type: String,
    pub class_name: String,
    pub automation_id: String,
    pub runtime_id: Vec<i32>,
    pub children: Option<Vec<ElementInfo>>,
    pub drill_id: DrillId,
}

/// An `ElementInfo` as a value.
pub struct InfoNode {
    pub name: Seq<char>,
    pub bounding_rect: IRect,
    pub control_type: i32,
    pub localized_control_type: Seq<char>,
    pub class_name: Seq<char>,
    pub automation_id: Seq<char>,
    pub runtime_id: Seq<i32>,
    pub children: Option<Seq<InfoNode>>,
    pub drill_id: DrillPath,
}

/// The value of one element.
pub open spec fn info_view(e: ElementInfo) -> InfoNode
    decreases e, 0nat,
{
    InfoNode {
        name: e.name@,
        bounding_rect: e.bounding_rect,
        control_type: e.control_type,
        localized_control_type: e.localized_control_type@,
        class_name: e.class_name@,
        automation_id: e.automation_id@,
        runtime_id: e.runtime_id@,
        children: match e.children {
            Some(v) => Some(infos_view(v@)),
            None => None,
        },
        drill_id: e.drill_id@,
    }
}

/// The values of a sequence of elements.
pub open spec fn infos_view(s: Seq<ElementInfo>) -> Seq<InfoNode>
    decreases s, 1nat,
{
    if s.len() == 0 {
        seq![]
    } else {
        infos_view(s.drop_last()).push(info_view(s.last()))
    }
}

impl View for ElementInfo {
    type V = InfoNode;

    open spec fn view(&self) -> InfoNode {
        info_view(*self)
    }
}

/// The path of a child at position `pos` under a parent at `anc`.
pub open spec fn extend_path(anc: DrillPath, pos: usize) -> DrillPath {
    match anc {
        DrillPath::Child(p) => DrillPath::Child(p.push(pos)),
        _ => DrillPath::Child(seq![pos]),
    }
}

/// The path under which the children of `n` are relabelled, when `n` stands under `anc`.
pub open spec fn path_below(n: InfoNode, anc: DrillPath) -> DrillPath {
    match n.drill_id {
        DrillPath::Child(base) => if base.len() > 0 {
            extend_path(anc, base.last())
        } else {
            anc
        },
        _ => anc,
    }
}

/// `n`, standing under a parent at `anc`, with its drill ids made full paths: a node
/// whose drill id ends with its position gets the parent's path with that position
/// appended, and its descendants are relabelled below it in the same way. A node whose
/// drill id is not a child path keeps its whole subtree as it is.
pub open spec fn relabel_node(n: InfoNode, anc: DrillPath) -> InfoNode
    decreases n, 0nat,
{
    match n.drill_id {
        DrillPath::Child(base) => InfoNode {
            drill_id: if base.len() > 0 {
                path_below(n, anc)
            } else {
                n.drill_id
            },
            children: match n.children {
                Some(k) => Some(relabel_all(k, path_below(n, anc))),
                None => None,
            },
            ..n
        },
        _ => n,
    }
}

/// Each of `s` relabelled under `anc` (see `relabel_node`).
pub open spec fn relabel_all(s: Seq<InfoNode>, anc: DrillPath) -> Seq<InfoNode>
    decreases s, 1nat,
{
    if s.len() == 0 {
        seq![]
    } else {
        relabel_all(s.drop_last(), anc).push(relabel_node(s.last(), anc))
    }
}

/// The number of nodes in the subtree of `n`.
pub open spec fn node_size(n: InfoNode) -> nat
    decreases n, 0nat,
{
    1 + match n.children {
        Some(k) => forest_size(k),
        None => 0,
    }
}

/// The number of nodes in the subtrees of `s`.
pub open spec fn forest_size(s: Seq<InfoNode>) -> nat
    decreases s, 1nat,
{
    if s.len() == 0 {
        0
    } else {
        forest_size(s.drop_last()) + node_size(s.last())
    }
}

/// The value of each element of `s` is at its place in the values of `s`.
pub proof fn lemma_infos_view_index(s: Seq<ElementInfo>)
    ensures
        infos_view(s).len() == s.len(),
        forall|i: int| 0 <= i < s.len() ==> #[trigger] infos_view(s)[i] == info_view(s[i]),
    decreases s.len(),
{
    if s.len() > 0 {
        lemma_infos_view_index(s.drop_last());
    }
}

/// Relabelling a sequence relabels each of its subtrees in place.
pub proof fn lemma_relabel_all_index(s: Seq<InfoNode>, anc: DrillPath)
    ensures
        relabel_all(s, anc).len() == s.len(),
        forall|i: int|
            0 <= i < s.len() ==> #[trigger] relabel_all(s, anc)[i] == relabel_node(s[i], anc),
    decreases s.len(),
{
    if s.len() > 0 {
        lemma_relabel_all_index(s.drop_last(), anc);
    }
}

/// No subtree of `s` is larger than all of `s`.
pub proof fn lemma_node_within_forest(s: Seq<InfoNode>, i: int)
    requires
        0 <= i < s.len(),
    ensures
        node_size(s[i]) <= forest_size(s),
    decreases s.len(),
{
    if i < s.len() - 1 {
        lemma_node_within_forest(s.drop_last(), i);
    }
}

/// A copy of the runtime id `p`.
pub fn copy_ids(p: &Vec<i32>) -> (r: Vec<i32>)
    ensures
        r@ == p@,
{
    let mut r: Vec<i32> = Vec::new();
    let mut i: usize = 0;
    while i < p.len()
        invariant
            i <= p@.len(),
            r@ == p@.subrange(0, i as int),
        decreases p@.len() - i,
    {
        r.push(p[i]);
        i = i + 1;
        assert(r@ =~= p@.subrange(0, i as int));
    }
    assert(r@ =~= p@);
    r
}

/// Whether the runtime ids `a` and `b` are the same.
pub fn same_ids(a: &Vec<i32>, b: &Vec<i32>) -> (r: bool)
    ensures
        r == (a@ == b@),
{
    if a.len() != b.len() {
        return false;
    }
    let mut i: usize = 0;
    while i < a.len()
        invariant
            a@.len() == b@.len(),
            i <= a@.len(),
            forall|j: int| 0 <= j < i ==> a@[j] == b@[j],
        decreases a@.len() - i,
    {
        if a[i] != b[i] {
            return false;
        }
        i = i + 1;
    }
    assert(a@ =~= b@);
    true
}

/// A copy of the positions `p`.
fn copy_positions(p: &Vec<usize>) -> (r: Vec<usize>)
    ensures
        r@ == p@,
{
    let mut r: Vec<usize> = Vec::new();
    let mut i: usize = 0;
    while i < p.len()
        invariant
            i <= p@.len(),
            r@ == p@.subrange(0, i as int),
        decreases p@.len() - i,
    {
        r.push(p[i]);
        i = i + 1;
        assert(r@ =~= p@.subrange(0, i as int));
    }
    assert(r@ =~= p@);
    r
}

impl DrillId {
    /// A copy of this drill id.
    pub fn duplicate(&self) -> (r: DrillId)
        ensures
            r@ == self@,
    {
        match self {
            DrillId::Root => DrillId::Root,
            DrillId::Unknown => DrillId::Unknown,
            DrillId::Child(p) => DrillId::Child(copy_positions(p)),
        }
    }

    /// The drill id of a child at position `pos` under an element at this drill id.
    pub fn extended(&self, pos: usize) -> (r: DrillId)
        ensures
            r@ == extend_path(self@, pos),
    {
        match self {
            DrillId::Child(p) => {
                let mut q = copy_positions(p);
                q.push(pos);
                DrillId::Child(q)
            },
            _ => {
                let mut q: Vec<usize> = Vec::new();
                q.push(pos);
                assert(q@ =~= seq![pos]);
                DrillId::Child(q)
            },
        }
    }
}

/// Relabels one element standing under a parent at `anc` (see `relabel_node`).
fn relabel_one(child: &mut ElementInfo, anc: &DrillId)
    ensures
        final(child)@ == relabel_node(old(child)@, anc@),
    decreases node_size(old(child)@), 0nat,
{
    let ghost old_view = child@;
    let below: Option<DrillId> = match &child.drill_id {
        DrillId::Child(base) => {
            let n = base.len();
            if n > 0 {
                Some(anc.extended(base[n - 1]))
            } else {
                Some(anc.duplicate())
            }
        },
        _ => None,
    };
    match below {
        Some(path) => {
            let ghost path_view = path@;
            assert(path_view == path_below(old_view, anc@));
            let relabel_self = match &child.drill_id {
                DrillId::Child(base) => base.len() > 0,
                _ => false,
            };
            if relabel_self {
                child.drill_id = path.duplicate();
            }
            match &mut child.children {
                Some(kids) => {
                    proof {
                        assert(old_view.children == Some(infos_view(kids@)));
                    }
                    relabel_children(kids, &path);
                },
                None => {},
            }
        },
        None => {},
    }
}

/// Relabels each of `kids`, standing under a parent at `anc` (see `relabel_all`).
fn relabel_children(kids: &mut Vec<ElementInfo>, anc: &DrillId)
    ensures
        infos_view(final(kids)@) == relabel_all(infos_view(old(kids)@), anc@),
    decreases forest_size(infos_view(old(kids)@)), 1nat,
{
    let ghost orig = kids@;
    let ghost origv = infos_view(orig);
    proof {
        lemma_infos_view_index(orig);
        lemma_relabel_all_index(origv, anc@);
    }
    let mut pending: Vec<ElementInfo> = Vec::new();
    std::mem::swap(kids, &mut pending);
    let n = pending.len();
    let mut i: usize = 0;
    assert(pending@.skip(0) =~= orig);
    while i < n
        invariant
            orig == old(kids)@,
            n == orig.len(),
            origv == infos_view(orig),
            origv.len() == orig.len(),
            forall|j: int| 0 <= j < orig.len() ==> #[trigger] origv[j] == info_view(orig[j]),
            relabel_all(origv, anc@).len() == origv.len(),
            forall|j: int|
                0 <= j < origv.len() ==> #[trigger] relabel_all(origv, anc@)[j]
                    == relabel_node(origv[j], anc@),
            i <= n,
            pending@ == orig.skip(i as int),
            kids@.len() == i,
            forall|j: int|
                0 <= j < i ==> #[trigger] info_view(kids@[j]) == relabel_node(origv[j], anc@),
        decreases n - i,
    {
        let mut child = pending.remove(0);
        assert(child == orig[i as int]);
        proof {
            lemma_node_within_forest(origv, i as int);
            assert(node_size(child@) <= forest_size(infos_view(old(kids)@)));
        }
        relabel_one(&mut child, anc);
        kids.push(child);
        i = i + 1;
        assert(pending@ =~= orig.skip(i as int));
    }
    proof {
        lemma_infos_view_index(kids@);
        assert(infos_view(kids@) =~= relabel_all(origv, anc@));
    }
}

/// Makes the drill ids of `children` (and, below them, of their descendants) full paths
/// from the root, for children standing under a parent at `ancestor_path`: a child
/// whose drill id ends with its position gets the parent's path with that position
/// appended (see `relabel_all`). Only drill ids change.
pub fn update_drill_ids(children: Option<&mut Vec<ElementInfo>>, ancestor_path: &DrillId)
    ensures
        match children {
            Some(kids) => infos_view(final(kids)@) == relabel_all(
                infos_view((*kids)@),
                ancestor_path@,
            ),
            None => true,
        },
{
    if let Some(kids) = children {
        relabel_children(kids, ancestor_path);
    }
}

/// `n` with every drill id in its subtree forgotten.
pub open spec fn erase_node(n: InfoNode) -> InfoNode
    decreases n, 0nat,
{
    InfoNode {
        drill_id: DrillPath::Unknown,
        children: match n.children {
            Some(k) => Some(erase_all(k)),
            None => None,
        },
        ..n
    }
}

/// Each of `s` with every drill id in its subtree forgotten.
pub open spec fn erase_all(s: Seq<InfoNode>) -> Seq<InfoNode>
    decreases s, 1nat,
{
    if s.len() == 0 {
        seq![]
    } else {
        erase_all(s.drop_last()).push(erase_node(s.last()))
    }
}

/// Law: relabelling a subtree changes nothing but drill ids.
pub proof fn lemma_relabel_node_changes_only_drill_ids(n: InfoNode, anc: DrillPath)
    ensures
        erase_node(relabel_node(n, anc)) == erase_node(n),
    decreases n, 0nat,
{
    if let DrillPath::Child(base) = n.drill_id {
        if let Some(k) = n.children {
            lemma_relabel_all_changes_only_drill_ids(k, path_below(n, anc));
        }
    }
}

/// Law: relabelling a sequence of subtrees changes nothing but drill ids.
pub proof fn lemma_relabel_all_changes_only_drill_ids(s: Seq<InfoNode>, anc: DrillPath)
    ensures
        erase_all(relabel_all(s, anc)) == erase_all(s),
    decreases s, 1nat,
{
    if s.len() > 0 {
        let r = relabel_all(s.drop_last(), anc);
        let x = relabel_node(s.last(), anc);
        lemma_relabel_all_changes_only_drill_ids(s.drop_last(), anc);
        lemma_relabel_node_changes_only_drill_ids(s.last(), anc);
        assert(r.push(x).drop_last() =~= r);
    }
}

/// Law: relabelling a subtree a second time, under the same parent, changes nothing.
pub proof fn lemma_relabel_node_idempotent(n: InfoNode, anc: DrillPath)
    ensures
        relabel_node(relabel_node(n, anc), anc) == relabel_node(n, anc),
    decreases n, 0nat,
{
    let m = relabel_node(n, anc);
    if let DrillPath::Child(base) = n.drill_id {
        let p = path_below(n, anc);
        if base.len() > 0 {
            match anc {
                DrillPath::Child(q) => {
                    assert(q.push(base.last()).last() == base.last());
                },
                _ => {
                    assert(seq![base.last()].last() == base.last());
                },
            }
        }
        assert(path_below(m, anc) == p);
        if let Some(k) = n.children {
            lemma_relabel_all_idempotent(k, p);
        }
    }
}

/// Law: relabelling a sequence of subtrees a second time, under the same parent,
/// changes nothing.
pub proof fn lemma_relabel_all_idempotent(s: Seq<InfoNode>, anc: DrillPath)
    ensures
        relabel_all(relabel_all(s, anc), anc) == relabel_all(s, anc),
    decreases s, 1nat,
{
    if s.len() > 0 {
        let r = relabel_all(s.drop_last(), anc);
        let x = relabel_node(s.last(), anc);
        lemma_relabel_all_idempotent(s.drop_last(), anc);
        lemma_relabel_node_idempotent(s.last(), anc);
        assert(r.push(x).drop_last() =~= r);
    }
}

} // verus!
