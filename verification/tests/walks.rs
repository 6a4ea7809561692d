use cursor_hero::elements_at_point::ElementsAtWalk;
use cursor_hero::formatting::format_tree_label;
use cursor_hero::formatting::get_tree_string;
use cursor_hero::formatting::LabelParts;
use cursor_hero::formatting::LabelTree;
use cursor_hero::taskbar::TaskbarEntry;
use cursor_hero::element_info::IRect;

fn leaf(l: &str) -> LabelTree {
    LabelTree { label: l.to_string(), children: vec![] }
}

#[test]
fn tree_string_indents_by_depth() {
    let tree = LabelTree {
        label: "root".to_string(),
        children: vec![LabelTree { label: "a".to_string(), children: vec![leaf("a1")] }, leaf("b")],
    };
    assert_eq!(get_tree_string(&tree), "root\n  a\n    a1\n  b\n");
    assert_eq!(get_tree_string(&leaf("x")), "x\n");
}

#[test]
fn tree_label_defaults() {
    let parts = LabelParts {
        name: Some("\"Start\"".to_string()),
        control_type: None,
        class_name: None,
        runtime_id: Some("[1, 2]".to_string()),
        rect: None,
    };
    assert_eq!(
        format_tree_label(&parts),
        "name=\"Start\" control_type=unknown control type class_name=(null) runtime_id=[1, 2] rect=(null)"
    );
}

#[test]
fn breadth_first_walk_records_depths() {
    // tree: 0 -> [1, 2]; 1 -> [3]; 2 -> []; 3 -> []
    let children = |e: u32| -> Vec<u32> {
        match e {
            0 => vec![1, 2],
            1 => vec![3],
            _ => vec![],
        }
    };
    let mut walk = ElementsAtWalk::new(0u32);
    while walk.advance() {
        let e = *walk.last_visited().unwrap();
        walk.add_children(children(e));
    }
    assert_eq!(walk.into_visited(), vec![(0, 0), (1, 1), (2, 1), (3, 2)]);
}

#[test]
fn taskbar_entry_defaults() {
    let e = TaskbarEntry::new(None, None);
    assert_eq!(e.name, "");
    assert_eq!(e.bounds, IRect { min_x: 0, min_y: 0, max_x: 0, max_y: 0 });
    let r = IRect { min_x: 1, min_y: 2, max_x: 3, max_y: 4 };
    let e = TaskbarEntry::new(Some("Files".to_string()), Some(r));
    assert_eq!(e.name, "Files");
    assert_eq!(e.bounds, r);
}
