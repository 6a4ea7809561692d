use cursor_hero::element_info::update_drill_ids;
use cursor_hero::element_info::DrillId;
use cursor_hero::element_info::ElementInfo;
use cursor_hero::element_info::IRect;
use cursor_hero::gather_children::StopBehaviour;
use cursor_hero::gather_tree::child_read;
use cursor_hero::gather_tree::children_to_gather;
use cursor_hero::gather_tree::contains_runtime_id;
use cursor_hero::gather_tree::ChildRead;
use cursor_hero::gather_tree::gather_info_children;
use cursor_hero::gather_tree::gather_info_tree;
use cursor_hero::gather_tree::gather_info_tree_ancestry_filtered;
use cursor_hero::gather_tree::number_children;
use cursor_hero::gather_tree::tree_stop_behaviour;
use cursor_hero::gather_tree::with_children;
use cursor_hero::gather_tree::TreeError;

fn info(name: &str, id: i32) -> ElementInfo {
    ElementInfo::new(
        name.to_string(),
        IRect { min_x: 0, min_y: 0, max_x: 10, max_y: 20 },
        50033,
        "pane".to_string(),
        "Class".to_string(),
        format!("auto-{}", id),
        vec![42, id],
    )
}

fn path(d: &DrillId) -> Option<Vec<usize>> {
    match d {
        DrillId::Child(p) => Some(p.clone()),
        _ => None,
    }
}

#[test]
fn new_info_has_no_children_and_unknown_drill_id() {
    let i = info("a", 1);
    assert_eq!(i.name, "a");
    assert_eq!(i.runtime_id, vec![42, 1]);
    assert!(i.children.is_none());
    assert!(matches!(i.drill_id, DrillId::Unknown));
}

#[test]
fn numbering_counts_unreadable_children() {
    let kids = number_children(vec![Some(info("a", 1)), None, Some(info("c", 3))]);
    assert_eq!(kids.len(), 2);
    assert_eq!(kids[0].name, "a");
    assert_eq!(path(&kids[0].drill_id), Some(vec![0]));
    assert_eq!(kids[1].name, "c");
    assert_eq!(path(&kids[1].drill_id), Some(vec![2]));
}

#[test]
fn info_children_get_full_paths() {
    let kids = gather_info_children(vec![None, Some(info("b", 2))], &DrillId::Child(vec![4, 5]));
    assert_eq!(kids.len(), 1);
    assert_eq!(path(&kids[0].drill_id), Some(vec![4, 5, 1]));
    let kids = gather_info_children(vec![Some(info("a", 1))], &DrillId::Root);
    assert_eq!(path(&kids[0].drill_id), Some(vec![0]));
    let kids = gather_info_children(vec![Some(info("a", 1))], &DrillId::Unknown);
    assert_eq!(path(&kids[0].drill_id), Some(vec![0]));
}

#[test]
fn update_drill_ids_reaches_grandchildren_and_is_idempotent() {
    let child = with_children(info("child", 2), vec![None, None, Some(info("grandchild", 3))]);
    let mut kids = number_children(vec![None, Some(child)]);
    update_drill_ids(Some(&mut kids), &DrillId::Child(vec![7]));
    assert_eq!(path(&kids[0].drill_id), Some(vec![7, 1]));
    let grand = &kids[0].children.as_ref().unwrap()[0];
    assert_eq!(path(&grand.drill_id), Some(vec![7, 1, 2]));
    update_drill_ids(Some(&mut kids), &DrillId::Child(vec![7]));
    assert_eq!(path(&kids[0].drill_id), Some(vec![7, 1]));
    let grand = &kids[0].children.as_ref().unwrap()[0];
    assert_eq!(path(&grand.drill_id), Some(vec![7, 1, 2]));
    assert_eq!(grand.name, "grandchild");
    update_drill_ids(None, &DrillId::Root);
}

#[test]
fn children_without_a_child_drill_id_are_left_alone() {
    let mut kids = vec![with_children(info("x", 1), vec![Some(info("y", 2))])];
    update_drill_ids(Some(&mut kids), &DrillId::Child(vec![3]));
    assert!(matches!(kids[0].drill_id, DrillId::Unknown));
    let y = &kids[0].children.as_ref().unwrap()[0];
    assert_eq!(path(&y.drill_id), Some(vec![0]));
}

#[test]
fn whole_tree_is_placed_at_its_drill_id() {
    let tree = with_children(info("root", 1), vec![Some(info("a", 2)), Some(info("b", 3))]);
    let tree = gather_info_tree(tree, DrillId::Child(vec![0, 3]));
    assert_eq!(path(&tree.drill_id), Some(vec![0, 3]));
    let kids = tree.children.as_ref().unwrap();
    assert_eq!(path(&kids[0].drill_id), Some(vec![0, 3, 0]));
    assert_eq!(path(&kids[1].drill_id), Some(vec![0, 3, 1]));
}

#[test]
fn ancestry_tree_finds_start_element() {
    let mid = with_children(info("mid", 2), vec![Some(info("start", 3))]);
    let root = with_children(info("root", 1), vec![Some(info("other", 4)), Some(mid)]);
    let res = match gather_info_tree_ancestry_filtered(root, Some(vec![42, 3])) {
        Ok(r) => r,
        Err(_) => panic!("start element should be found"),
    };
    assert!(matches!(res.ui_tree.drill_id, DrillId::Root));
    assert_eq!(res.start_info.name, "start");
    assert_eq!(path(&res.start_info.drill_id), Some(vec![1, 0]));
}

#[test]
fn ancestry_tree_finds_root_last() {
    let root = with_children(info("root", 1), vec![Some(info("a", 2))]);
    let res = gather_info_tree_ancestry_filtered(root, Some(vec![42, 1])).ok().unwrap();
    assert_eq!(res.start_info.name, "root");
    assert!(matches!(res.start_info.drill_id, DrillId::Root));
}

#[test]
fn ancestry_tree_without_start_fails() {
    let root = with_children(info("root", 1), vec![Some(info("a", 2))]);
    assert!(matches!(
        gather_info_tree_ancestry_filtered(root, Some(vec![9])),
        Err(TreeError::StartNotFound)
    ));
    let root = info("root", 1);
    assert!(matches!(
        gather_info_tree_ancestry_filtered(root, None),
        Err(TreeError::StartNotFound)
    ));
}

#[test]
fn duplicate_copies_whole_subtree() {
    let tree = with_children(info("root", 1), vec![Some(info("a", 2))]);
    let copy = tree.duplicate();
    assert_eq!(copy.name, "root");
    assert_eq!(copy.children.as_ref().unwrap()[0].name, "a");
    assert_eq!(path(&copy.children.as_ref().unwrap()[0].drill_id), Some(vec![0]));
}

#[test]
fn tree_walk_stops_at_root_end_only_at_depth_zero() {
    assert_eq!(tree_stop_behaviour(0), StopBehaviour::RootEndEncountered);
    assert_eq!(tree_stop_behaviour(1), StopBehaviour::EndOfSiblings);
}

#[test]
fn runtime_id_membership() {
    let ids = vec![vec![1, 2], vec![3]];
    assert!(contains_runtime_id(&ids, &vec![3]));
    assert!(!contains_runtime_id(&ids, &vec![1]));
    assert!(!contains_runtime_id(&vec![], &vec![1]));
}

#[test]
fn filtered_walk_expands_only_what_passes() {
    assert_eq!(child_read(true), ChildRead::Subtree);
    assert_eq!(child_read(false), ChildRead::Single);
    assert_eq!(children_to_gather(false, 0), None);
    assert_eq!(children_to_gather(true, 0), Some(StopBehaviour::RootEndEncountered));
    assert_eq!(children_to_gather(true, 3), Some(StopBehaviour::EndOfSiblings));
}
