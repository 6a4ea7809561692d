use cursor_hero::resolve_app::AppResolveError;
use cursor_hero::vscode::assemble_body;
use cursor_hero::vscode::editor_area_path;
use cursor_hero::vscode::editor_groups_path;
use cursor_hero::vscode::group_content_path;
use cursor_hero::vscode::tab_container_path;
use cursor_hero::vscode::window_content_path;
use cursor_hero::vscode::body_path;
use cursor_hero::vscode::footer_path;
use cursor_hero::vscode::GroupRead;
use cursor_hero::vscode::parse_cursor_position;
use cursor_hero::vscode::resolve_footer;
use cursor_hero::vscode::EditorArea;
use cursor_hero::vscode::EditorTab;
use cursor_hero::vscode::SideTab;
use cursor_hero::vscode::SideTabKind;
use cursor_hero::vscode::VSCodeWindowBody;

#[test]
fn cursor_position_from_status_text() {
    assert_eq!(parse_cursor_position("Ln 218, Col 5"), Ok((5, 218)));
}

#[test]
fn cursor_position_with_selection() {
    assert_eq!(parse_cursor_position("Ln 218, Col 5 (15 selected)"), Ok((5, 218)));
}

#[test]
fn cursor_position_accepts_plus_sign() {
    assert_eq!(parse_cursor_position("Ln +7, Col 03"), Ok((3, 7)));
}

#[test]
fn cursor_position_errors_list_each_part() {
    assert_eq!(parse_cursor_position("Ln x, Col 5"), Err(vec![None, Some(5)]));
    assert_eq!(parse_cursor_position("Ln 1"), Err(vec![Some(1)]));
    assert_eq!(parse_cursor_position(""), Err(vec![None]));
    assert_eq!(parse_cursor_position("Ln 1, Col 2, Sel 3"), Err(vec![Some(1), Some(2), Some(3)]));
    assert_eq!(parse_cursor_position("Ln -1, Col 2"), Err(vec![None, Some(2)]));
    assert_eq!(parse_cursor_position("Ln +, Col 2"), Err(vec![None, Some(2)]));
    assert_eq!(parse_cursor_position("Ln  1, Col 2"), Err(vec![None, Some(2)]));
}

#[test]
fn cursor_position_overflow_is_an_error() {
    assert_eq!(
        parse_cursor_position("Ln 99999999999999999999999, Col 1"),
        Err(vec![None, Some(1)])
    );
}

#[test]
fn cursor_position_truncates_to_i32() {
    assert_eq!(parse_cursor_position("Ln 4294967297, Col 2147483648"), Ok((-2147483648, 1)));
}

#[test]
fn footer_holds_column_and_line() {
    let f = resolve_footer("Ln 3, Col 9").unwrap();
    assert_eq!((f.cursor_x, f.cursor_y), (9, 3));
    assert!(resolve_footer("nonsense").is_err());
}

#[test]
fn tab_is_active_when_selected() {
    let sel = Some("main.rs".to_string());
    assert!(EditorTab::new("main.rs".to_string(), &sel).active);
    assert!(!EditorTab::new("lib.rs".to_string(), &sel).active);
    assert!(!EditorTab::new("main.rs".to_string(), &None).active);
}

#[test]
fn editor_area_automation_id() {
    assert!(EditorArea::is_expected_automation_id("workbench.parts.editor"));
    assert!(!EditorArea::is_expected_automation_id("workbench.parts.sidebar"));
}

#[test]
fn body_reports_closed_explorer() {
    let body = VSCodeWindowBody::new(vec![]);
    assert!(body.editor_area.groups.is_empty());
    assert_eq!(body.right_tab, SideTab::Closed { kind: SideTabKind::Explorer });
}

fn s(x: &str) -> Option<String> {
    Some(x.to_string())
}

#[test]
fn vscode_drill_paths() {
    assert_eq!(window_content_path(), vec![0, 0, 0, 0, 0, 1]);
    assert_eq!(body_path(), vec![1, 0, 1]);
    assert_eq!(footer_path(), vec![2, 0]);
    assert_eq!(editor_area_path(), vec![0, 0, 1, 0, 0]);
    assert_eq!(editor_groups_path(), vec![0, 0, 0, 1]);
    assert_eq!(tab_container_path(), vec![0, 0, 0]);
    assert_eq!(group_content_path(), vec![1, 0, 0, 1]);
}

#[test]
fn body_keeps_groups_that_could_be_read() {
    let groups = vec![
        GroupRead { tabs: Some((s("b.rs"), vec![s("a.rs"), None, s("b.rs")])), content: Some(s("fn main() {}")) },
        GroupRead { tabs: None, content: Some(s("lost")) },
        GroupRead { tabs: Some((None, vec![s("c.rs")])), content: None },
        GroupRead { tabs: Some((None, vec![s("d.rs")])), content: Some(None) },
    ];
    let body = assemble_body("workbench.parts.editor", groups).unwrap();
    let g = &body.editor_area.groups;
    assert_eq!(g.len(), 2);
    assert_eq!(g[0].tabs.len(), 2);
    assert_eq!(g[0].tabs[0].title, "a.rs");
    assert!(!g[0].tabs[0].active);
    assert_eq!(g[0].tabs[1].title, "b.rs");
    assert!(g[0].tabs[1].active);
    assert_eq!(g[0].content.as_ref().unwrap().content, "fn main() {}");
    assert_eq!(g[1].tabs[0].title, "d.rs");
    assert!(!g[1].tabs[0].active);
    assert!(g[1].content.is_none());
    assert_eq!(body.right_tab, SideTab::Closed { kind: SideTabKind::Explorer });
}

#[test]
fn body_needs_the_editor_area() {
    let r = assemble_body("workbench.parts.sidebar", vec![]);
    assert!(matches!(r, Err(AppResolveError::BadStructure(_))));
}
