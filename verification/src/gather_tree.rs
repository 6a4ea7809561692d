//! Assembling element trees from what the walk read, numbering children by position,
//! and finding an element in a tree by its runtime id.

use vstd::prelude::*;

use crate::element_info::extend_path;
use crate::element_info::forest_size;
use crate::element_info::info_view;
use crate::element_info::infos_view;
use crate::element_info::copy_ids;
use crate::element_info::lemma_infos_view_index;
use crate::element_info::lemma_node_within_forest;
use crate::element_info::same_ids;
use crate::element_info::node_size;
use crate::element_info::relabel_all;
use crate::element_info::update_drill_ids;
use crate::element_info::DrillId;
use crate::element_info::DrillPath;
use crate::element_info::ElementInfo;
use crate::element_info::IRect;
use crate::element_info::InfoNode;
use crate::gather_children::StopBehaviour;

verus! {

impl ElementInfo {
    /// What was read of one element: no children gathered, drill id not known yet.
    pub fn new(
        name: String,
        bounding_rect: IRect,
        control_type: i32,
        localized_control_type: String,
        class_name: String,
        automation_id: String,
        runtime_id: Vec<i32>,
    ) -> (r: ElementInfo)
        ensures
            r.name == name,
            r.bounding_rect == bounding_rect,
            r.control_type == control_type,
            r.localized_control_type == localized_control_type,
            r.class_name == class_name,
            r.automation_id == automation_id,
            r.runtime_id == runtime_id,
            r.children is None,
            r.drill_id is Unknown,
    {
        ElementInfo {
            name,
            bounding_rect,
            control_type,
            localized_control_type,
            class_name,
            automation_id,
            runtime_id,
            children: None,
            drill_id: DrillId::Unknown,
        }
    }
}

/// The children that could be read, in walk order, each with its position among all
/// the children (those that could not be read included) as its drill id.
pub open spec fn numbered(found: Seq<Option<ElementInfo>>) -> Seq<InfoNode>
    decreases found.len(),
{
    if found.len() == 0 {
        seq![]
    } else {
        let rest = numbered(found.drop_last());
        match found.last() {
            Some(e) => rest.push(
                InfoNode {
                    drill_id: DrillPath::Child(seq![(found.len() - 1) as usize]),
                    ..info_view(e)
                },
            ),
            None => rest,
        }
    }
}

/// `n` placed at `d`, with the drill ids of its descendants made full paths below it.
pub open spec fn label_tree(n: InfoNode, d: DrillPath) -> InfoNode {
    InfoNode {
        drill_id: d,
        children: match n.children {
            Some(k) => Some(relabel_all(k, d)),
            None => None,
        },
        ..n
    }
}

/// The first of `s`, in pre-order (each node before its descendants), whose runtime id
/// is `id`.
pub open spec fn find_in_forest(s: Seq<InfoNode>, id: Seq<i32>) -> Option<InfoNode>
    decreases s, 1nat,
{
    if s.len() == 0 {
        None
    } else if s[0].runtime_id == id {
        Some(s[0])
    } else {
        match find_below(s[0], id) {
            Some(x) => Some(x),
            None => find_in_forest(s.drop_first(), id),
        }
    }
}

/// The first descendant of `n`, in pre-order, whose runtime id is `id`.
pub open spec fn find_below(n: InfoNode, id: Seq<i32>) -> Option<InfoNode>
    decreases n, 0nat,
{
    match n.children {
        Some(k) => find_in_forest(k, id),
        None => None,
    }
}

/// The element of the tree `root` whose runtime id is `id`: its descendants are
/// searched first, in pre-order, and the root last.
pub open spec fn find_start(root: InfoNode, id: Seq<i32>) -> Option<InfoNode> {
    match find_below(root, id) {
        Some(x) => Some(x),
        None => if root.runtime_id == id {
            Some(root)
        } else {
            None
        },
    }
}

/// The stop behaviour for gathering the children of an element at `depth` in a tree
/// walk: the root's children end at the desktop's last pane.
pub fn tree_stop_behaviour(depth: usize) -> (r: StopBehaviour)
    ensures
        depth == 0 ==> r == StopBehaviour::RootEndEncountered,
        depth != 0 ==> r == StopBehaviour::EndOfSiblings,
{
    if depth == 0 {
        StopBehaviour::RootEndEncountered
    } else {
        StopBehaviour::EndOfSiblings
    }
}

/// How a child is read in a filtered tree walk.
#[derive(Clone, Copy, Debug, PartialEq, Eq, Structural)]
pub enum ChildRead {
    /// Read it and the tree below it.
    Subtree,
    /// Read it alone.
    Single,
}

/// How a child is read in a filtered tree walk: with its subtree where it passes the
/// filter, alone otherwise.
pub fn child_read(passes_filter: bool) -> (r: ChildRead)
    ensures
        passes_filter ==> r == ChildRead::Subtree,
        !passes_filter ==> r == ChildRead::Single,
{
    if passes_filter {
        ChildRead::Subtree
    } else {
        ChildRead::Single
    }
}

/// Whether, and how, the children of an element at `depth` in a filtered tree walk are
/// gathered: only where the element passes the filter, stopping as
/// `tree_stop_behaviour` says.
pub fn children_to_gather(passes_filter: bool, depth: usize) -> (r: Option<StopBehaviour>)
    ensures
        !passes_filter ==> r is None,
        passes_filter && depth == 0 ==> r == Some(StopBehaviour::RootEndEncountered),
        passes_filter && depth != 0 ==> r == Some(StopBehaviour::EndOfSiblings),
{
    if passes_filter {
        Some(tree_stop_behaviour(depth))
    } else {
        None
    }
}

proof fn lemma_numbered_push(found: Seq<Option<ElementInfo>>, x: Option<ElementInfo>)
    ensures
        numbered(found.push(x)) == match x {
            Some(e) => numbered(found).push(
                InfoNode { drill_id: DrillPath::Child(seq![found.len() as usize]), ..info_view(e) },
            ),
            None => numbered(found),
        },
{
    assert(found.push(x).drop_last() =~= found);
}

/// The children that could be read, in walk order, each with its position among all
/// the children as its drill id (see `numbered`).
pub fn number_children(found: Vec<Option<ElementInfo>>) -> (r: Vec<ElementInfo>)
    ensures
        infos_view(r@) == numbered(found@),
{
    let ghost all = found@;
    let mut pending = found;
    let mut r: Vec<ElementInfo> = Vec::new();
    let mut i: usize = 0;
    let n = pending.len();
    assert(pending@ =~= all.skip(0));
    assert(all.take(0) =~= Seq::<Option<ElementInfo>>::empty());
    while i < n
        invariant
            n == all.len(),
            i <= n,
            pending@ == all.skip(i as int),
            infos_view(r@) == numbered(all.take(i as int)),
        decreases n - i,
    {
        let item = pending.remove(0);
        assert(item == all[i as int]);
        proof {
            lemma_numbered_push(all.take(i as int), item);
            assert(all.take(i as int).push(item) =~= all.take(i + 1));
        }
        match item {
            Some(mut info) => {
                let ghost orig_info = info;
                let mut pos: Vec<usize> = Vec::new();
                pos.push(i);
                assert(pos@ =~= seq![i]);
                info.drill_id = DrillId::Child(pos);
                assert(info_view(info) == InfoNode {
                    drill_id: DrillPath::Child(seq![i]),
                    ..info_view(orig_info)
                });
                let ghost before = r@;
                r.push(info);
                assert(r@.drop_last() =~= before);
                assert(infos_view(r@) == infos_view(before).push(info_view(info)));
            },
            None => {},
        }
        i = i + 1;
        assert(pending@ =~= all.skip(i as int));
    }
    assert(all.take(n as int) =~= all);
    r
}

/// The infos of the children of an element at `parent_drill_id`, from what could be read
/// of each child in walk order: numbered by position among all the children, with
/// their drill ids made full paths below the parent.
pub fn gather_info_children(found: Vec<Option<ElementInfo>>, parent_drill_id: &DrillId) -> (r:
    Vec<ElementInfo>)
    ensures
        infos_view(r@) == relabel_all(numbered(found@), parent_drill_id@),
{
    let mut children = number_children(found);
    update_drill_ids(Some(&mut children), parent_drill_id);
    children
}

/// `info` with the children read below it attached, numbered by position (see
/// `numbered`); their drill ids are made full paths later, once the whole tree is read.
pub fn with_children(info: ElementInfo, found: Vec<Option<ElementInfo>>) -> (r: ElementInfo)
    ensures
        r@ == (InfoNode { children: Some(numbered(found@)), ..info@ }),
{
    let mut info = info;
    let children = number_children(found);
    info.children = Some(children);
    info
}

/// The tree `tree` placed at `start_drill_id`, with the drill ids of its descendants made
/// full paths below it.
pub fn gather_info_tree(tree: ElementInfo, start_drill_id: DrillId) -> (r: ElementInfo)
    ensures
        r@ == label_tree(tree@, start_drill_id@),
{
    let mut tree = tree;
    update_drill_ids(tree.children.as_mut(), &start_drill_id);
    tree.drill_id = start_drill_id;
    tree
}


/// Whether `id` is one of `ids`.
pub fn contains_runtime_id(ids: &Vec<Vec<i32>>, id: &Vec<i32>) -> (r: bool)
    ensures
        r == exists|k: int| 0 <= k < ids@.len() && #[trigger] ids@[k]@ == id@,
{
    let mut i: usize = 0;
    while i < ids.len()
        invariant
            i <= ids@.len(),
            forall|k: int| 0 <= k < i ==> #[trigger] ids@[k]@ != id@,
        decreases ids@.len() - i,
    {
        if same_ids(&ids[i], id) {
            return true;
        }
        i = i + 1;
    }
    false
}

impl ElementInfo {
    /// A copy of this element and its whole subtree.
    pub fn duplicate(&self) -> (r: ElementInfo)
        ensures
            r@ == self@,
        decreases node_size(self@), 0nat,
    {
        let children = match &self.children {
            Some(kids) => Some(copy_infos(kids)),
            None => None,
        };
        ElementInfo {
            name: self.name.clone(),
            bounding_rect: self.bounding_rect,
            control_type: self.control_type,
            localized_control_type: self.localized_control_type.clone(),
            class_name: self.class_name.clone(),
            automation_id: self.automation_id.clone(),
            runtime_id: copy_ids(&self.runtime_id),
            children,
            drill_id: self.drill_id.duplicate(),
        }
    }
}

fn copy_infos(kids: &Vec<ElementInfo>) -> (r: Vec<ElementInfo>)
    ensures
        infos_view(r@) == infos_view(kids@),
    decreases forest_size(infos_view(kids@)), 1nat,
{
    proof {
        lemma_infos_view_index(kids@);
    }
    let mut r: Vec<ElementInfo> = Vec::new();
    let mut i: usize = 0;
    while i < kids.len()
        invariant
            i <= kids@.len(),
            infos_view(kids@).len() == kids@.len(),
            forall|j: int|
                0 <= j < kids@.len() ==> #[trigger] infos_view(kids@)[j] == info_view(kids@[j]),
            r@.len() == i,
            forall|j: int| 0 <= j < i ==> #[trigger] info_view(r@[j]) == info_view(kids@[j]),
        decreases kids@.len() - i,
    {
        proof {
            lemma_node_within_forest(infos_view(kids@), i as int);
        }
        let c = kids[i].duplicate();
        r.push(c);
        i = i + 1;
    }
    proof {
        lemma_infos_view_index(r@);
        assert(infos_view(r@) =~= infos_view(kids@));
    }
    r
}

fn find_in_children(kids: &Vec<ElementInfo>, id: &Vec<i32>) -> (r: Option<ElementInfo>)
    ensures
        match r {
            Some(e) => find_in_forest(infos_view(kids@), id@) == Some(e@),
            None => find_in_forest(infos_view(kids@), id@) is None,
        },
    decreases forest_size(infos_view(kids@)), 1nat,
{
    let ghost s = infos_view(kids@);
    proof {
        lemma_infos_view_index(kids@);
        assert(s.skip(0) =~= s);
    }
    let mut i: usize = 0;
    while i < kids.len()
        invariant
            s == infos_view(kids@),
            i <= kids@.len(),
            s.len() == kids@.len(),
            forall|j: int| 0 <= j < kids@.len() ==> #[trigger] s[j] == info_view(kids@[j]),
            find_in_forest(s, id@) == find_in_forest(s.skip(i as int), id@),
        decreases kids@.len() - i,
    {
        let ghost t = s.skip(i as int);
        assert(t[0] == s[i as int]);
        assert(t.drop_first() =~= s.skip(i + 1));
        let child = &kids[i];
        if same_ids(&child.runtime_id, id) {
            return Some(child.duplicate());
        }
        proof {
            lemma_node_within_forest(s, i as int);
        }
        match find_below_in(child, id) {
            Some(found) => {
                return Some(found);
            },
            None => {},
        }
        i = i + 1;
    }
    assert(s.skip(i as int) =~= Seq::<InfoNode>::empty());
    None
}

fn find_below_in(node: &ElementInfo, id: &Vec<i32>) -> (r: Option<ElementInfo>)
    ensures
        match r {
            Some(e) => find_below(node@, id@) == Some(e@),
            None => find_below(node@, id@) is None,
        },
    decreases node_size(node@), 0nat,
{
    match &node.children {
        Some(kids) => find_in_children(kids, id),
        None => None,
    }
}

/// A tree of element infos, and the info of the element that the walk started from.
pub struct GatherUITreeOkResult {
    pub ui_tree: ElementInfo,
    pub start_info: ElementInfo,
}

/// Why a tree could not be completed.
#[derive(Clone, Copy, Debug, PartialEq, Eq, Structural)]
pub enum TreeError {
    /// The start element's runtime id could not be read, or no element of the tree has it.
    StartNotFound,
}

/// Completes a tree read from the root of the start element's ancestry: the root is
/// placed at `Root` and its descendants get full drill ids; then the start element is
/// looked up by its runtime id (`None` where it could not be read), descendants first
/// in pre-order and the root last.
pub fn gather_info_tree_ancestry_filtered(
    root_info: ElementInfo,
    start_runtime_id: Option<Vec<i32>>,
) -> (r: Result<GatherUITreeOkResult, TreeError>)
    ensures
        match start_runtime_id {
            None => r == Err::<GatherUITreeOkResult, TreeError>(TreeError::StartNotFound),
            Some(id) => match find_start(label_tree(root_info@, DrillPath::Root), id@) {
                None => r == Err::<GatherUITreeOkResult, TreeError>(TreeError::StartNotFound),
                Some(x) => r matches Ok(res) && res.ui_tree@ == label_tree(
                    root_info@,
                    DrillPath::Root,
                ) && res.start_info@ == x,
            },
        },
{
    let tree = gather_info_tree(root_info, DrillId::Root);
    let id = match start_runtime_id {
        Some(id) => id,
        None => {
            return Err(TreeError::StartNotFound);
        },
    };
    let found = match find_below_in(&tree, &id) {
        Some(x) => Some(x),
        None => if same_ids(&tree.runtime_id, &id) {
            Some(tree.duplicate())
        } else {
            None
        },
    };
    match found {
        Some(start_info) => Ok(GatherUITreeOkResult { ui_tree: tree, start_info }),
        None => Err(TreeError::StartNotFound),
    }
}

/// The positions, among all the children walked, of those that could be read.
pub open spec fn read_positions(found: Seq<Option<ElementInfo>>) -> Seq<usize>
    decreases found.len(),
{
    if found.len() == 0 {
        seq![]
    } else {
        let rest = read_positions(found.drop_last());
        match found.last() {
            Some(_) => rest.push((found.len() - 1) as usize),
            None => rest,
        }
    }
}

proof fn lemma_numbered_positions(found: Seq<Option<ElementInfo>>)
    requires
        found.len() <= usize::MAX,
    ensures
        numbered(found).len() == read_positions(found).len(),
        forall|k: int|
            0 <= k < read_positions(found).len() ==> #[trigger] read_positions(found)[k]
                < found.len(),
        forall|k: int|
            0 <= k < read_positions(found).len() ==> #[trigger] found[read_positions(found)[k] as int] is Some,
        forall|k: int|
            0 <= k < numbered(found).len() ==> #[trigger] numbered(found)[k] == (InfoNode {
                drill_id: DrillPath::Child(seq![read_positions(found)[k]]),
                ..info_view(found[read_positions(found)[k] as int]->0)
            }),
        forall|j: int, k: int|
            0 <= j < k < read_positions(found).len() ==> read_positions(found)[j]
                < read_positions(found)[k],
    decreases found.len(),
{
    if found.len() > 0 {
        let f = found.drop_last();
        lemma_numbered_positions(f);
        let nf = numbered(f);
        let pf = read_positions(f);
        assert forall|k: int| 0 <= k < pf.len() implies f[pf[k] as int] == found[pf[k] as int] by {
            assert(pf[k] < f.len());
        }
        match found.last() {
            Some(e) => {
                let last = (found.len() - 1) as usize;
                assert(read_positions(found) == pf.push(last));
                assert(numbered(found) == nf.push(
                    InfoNode { drill_id: DrillPath::Child(seq![last]), ..info_view(e) },
                ));
                assert(found[last as int] == Some(e));
            },
            None => {
                assert(read_positions(found) == pf);
                assert(numbered(found) == nf);
            },
        }
    }
}

/// Law: each child info that `gather_info_children` gives has, as its drill id, the
/// parent's path extended by the child's position among all the children walked
/// (those that could not be read counted too); the infos come in walk order.
pub proof fn lemma_child_drill_ids(found: Seq<Option<ElementInfo>>, parent: DrillPath)
    requires
        found.len() <= usize::MAX,
    ensures
        relabel_all(numbered(found), parent).len() == read_positions(found).len(),
        forall|k: int|
            0 <= k < read_positions(found).len() ==> (#[trigger] relabel_all(
                numbered(found),
                parent,
            )[k]).drill_id == extend_path(parent, read_positions(found)[k]),
        forall|k: int|
            0 <= k < read_positions(found).len() ==> #[trigger] found[read_positions(found)[k] as int]
                is Some,
        forall|j: int, k: int|
            0 <= j < k < read_positions(found).len() ==> read_positions(found)[j]
                < read_positions(found)[k],
{
    lemma_numbered_positions(found);
    crate::element_info::lemma_relabel_all_index(numbered(found), parent);
    assert forall|k: int| 0 <= k < read_positions(found).len() implies (#[trigger] relabel_all(
        numbered(found),
        parent,
    )[k]).drill_id == extend_path(parent, read_positions(found)[k]) by {
        let n = numbered(found)[k];
        let p = read_positions(found)[k];
        assert(n.drill_id == DrillPath::Child(seq![p]));
        assert(seq![p].last() == p);
    }
}

/// The nodes of `s` in pre-order: each node, then its descendants, then the next node.
pub open spec fn preorder_forest(s: Seq<InfoNode>) -> Seq<InfoNode>
    decreases s, 1nat,
{
    if s.len() == 0 {
        seq![]
    } else {
        seq![s[0]] + preorder_below(s[0]) + preorder_forest(s.drop_first())
    }
}

/// The descendants of `n` in pre-order.
pub open spec fn preorder_below(n: InfoNode) -> Seq<InfoNode>
    decreases n, 0nat,
{
    match n.children {
        Some(k) => preorder_forest(k),
        None => seq![],
    }
}

/// The first of `q` whose runtime id is `id`.
pub open spec fn first_with_id(q: Seq<InfoNode>, id: Seq<i32>) -> Option<InfoNode>
    decreases q.len(),
{
    if q.len() == 0 {
        None
    } else if q[0].runtime_id == id {
        Some(q[0])
    } else {
        first_with_id(q.drop_first(), id)
    }
}

proof fn lemma_first_with_id_append(a: Seq<InfoNode>, b: Seq<InfoNode>, id: Seq<i32>)
    ensures
        first_with_id(a + b, id) == match first_with_id(a, id) {
            Some(x) => Some(x),
            None => first_with_id(b, id),
        },
    decreases a.len(),
{
    if a.len() == 0 {
        assert(a + b =~= b);
    } else {
        assert((a + b)[0] == a[0]);
        assert((a + b).drop_first() =~= a.drop_first() + b);
        lemma_first_with_id_append(a.drop_first(), b, id);
    }
}

/// Law: the search for the start element finds the first node, in pre-order, with the
/// runtime id sought.
pub proof fn lemma_find_in_forest_is_first_in_preorder(s: Seq<InfoNode>, id: Seq<i32>)
    ensures
        find_in_forest(s, id) == first_with_id(preorder_forest(s), id),
    decreases s, 1nat,
{
    if s.len() > 0 {
        let head = seq![s[0]];
        let below = preorder_below(s[0]);
        let rest = preorder_forest(s.drop_first());
        assert(preorder_forest(s) == head + below + rest);
        lemma_first_with_id_append(head + below, rest, id);
        lemma_first_with_id_append(head, below, id);
        assert(head.drop_first() =~= Seq::<InfoNode>::empty());
        assert(first_with_id(Seq::<InfoNode>::empty(), id) is None);
        lemma_find_below_is_first_in_preorder(s[0], id);
        lemma_find_in_forest_is_first_in_preorder(s.drop_first(), id);
    }
}

/// Law: the search below a node finds the first of its descendants, in pre-order, with
/// the runtime id sought.
pub proof fn lemma_find_below_is_first_in_preorder(n: InfoNode, id: Seq<i32>)
    ensures
        find_below(n, id) == first_with_id(preorder_below(n), id),
    decreases n, 0nat,
{
    if let Some(k) = n.children {
        lemma_find_in_forest_is_first_in_preorder(k, id);
    }
}

/// Law: the start element is the first node with its runtime id among the root's
/// descendants in pre-order followed by the root itself.
pub proof fn lemma_find_start_order(root: InfoNode, id: Seq<i32>)
    ensures
        find_start(root, id) == first_with_id(preorder_below(root) + seq![root], id),
{
    lemma_find_below_is_first_in_preorder(root, id);
    lemma_first_with_id_append(preorder_below(root), seq![root], id);
    assert(seq![root].drop_first() =~= Seq::<InfoNode>::empty());
    assert(first_with_id(Seq::<InfoNode>::empty(), id) is None);
}

} // verus!
