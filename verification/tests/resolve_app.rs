use cursor_hero::calculator::CalculatorPart;
use cursor_hero::calculator::CalculatorResolver;
use cursor_hero::calculator::CALCULATOR_PART_COUNT;
use cursor_hero::element_info::ElementInfo;
use cursor_hero::element_info::IRect;
use cursor_hero::resolve_app::classify_app;
use cursor_hero::resolve_app::collect_snapshot;
use cursor_hero::resolve_app::AppKind;
use cursor_hero::resolve_app::AppResolveError;
use cursor_hero::resolve_app::AppWindow;
use cursor_hero::resolve_app::GatherAppsError;
use cursor_hero::resolve_app::CONTROL_TYPE_PANE;
use cursor_hero::resolve_app::CONTROL_TYPE_WINDOW;
use cursor_hero::vscode::VSCodeWindow;
use cursor_hero::vscode::VSCodeWindowBody;
use cursor_hero::vscode::VSCodeWindowFooter;
use cursor_hero::vscode::VSCodeWindowHeader;

fn s(x: &str) -> Option<String> {
    Some(x.to_string())
}

#[test]
fn classifies_vscode() {
    assert_eq!(
        classify_app(&s("main.rs - project - Visual Studio Code"), Some(CONTROL_TYPE_PANE), &s("Chrome_WidgetWin_1")),
        Some(AppKind::VSCode)
    );
    assert_eq!(
        classify_app(&s("Visual Studio Code"), Some(CONTROL_TYPE_PANE), &s("Chrome_WidgetWin_1")),
        Some(AppKind::VSCode)
    );
    assert_eq!(
        classify_app(&s("Visual Studio Code - x"), Some(CONTROL_TYPE_PANE), &s("Chrome_WidgetWin_1")),
        None
    );
    assert_eq!(
        classify_app(&s("x - Visual Studio Code"), Some(CONTROL_TYPE_WINDOW), &s("Chrome_WidgetWin_1")),
        None
    );
}

#[test]
fn classifies_calculator() {
    assert_eq!(
        classify_app(&s("Calculator"), Some(CONTROL_TYPE_WINDOW), &s("ApplicationFrameWindow")),
        Some(AppKind::Calculator)
    );
    assert_eq!(
        classify_app(&s("Calculator"), Some(CONTROL_TYPE_PANE), &s("ApplicationFrameWindow")),
        None
    );
    assert_eq!(classify_app(&None, Some(CONTROL_TYPE_WINDOW), &s("ApplicationFrameWindow")), None);
    assert_eq!(classify_app(&s("Calculator"), None, &s("ApplicationFrameWindow")), None);
}

fn vscode_window() -> AppWindow {
    AppWindow::VSCode(VSCodeWindow {
        focused: true,
        header: VSCodeWindowHeader {},
        body: VSCodeWindowBody::new(vec![]),
        footer: VSCodeWindowFooter { cursor_x: 1, cursor_y: 2 },
    })
}

#[test]
fn snapshot_keeps_resolved_windows_in_order() {
    let snap = collect_snapshot(vec![
        Err(AppResolveError::NoMatch),
        Ok(vscode_window()),
        Err(AppResolveError::NoMatch),
    ])
    .ok()
    .unwrap();
    assert_eq!(snap.app_windows.len(), 1);
    assert!(matches!(snap.app_windows[0], AppWindow::VSCode(ref w) if w.focused));
}

#[test]
fn snapshot_fails_with_every_real_error() {
    let r = collect_snapshot(vec![
        Err(AppResolveError::BadStructure("a".to_string())),
        Ok(vscode_window()),
        Err(AppResolveError::NoMatch),
        Err(AppResolveError::Failed("b".to_string())),
    ]);
    match r {
        Err(GatherAppsError::ResolveFailed(errs)) => {
            assert_eq!(errs.len(), 2);
            assert!(matches!(errs[0], AppResolveError::BadStructure(ref m) if m == "a"));
            assert!(matches!(errs[1], AppResolveError::Failed(ref m) if m == "b"));
        }
        _ => panic!("expected ResolveFailed"),
    }
}

#[test]
fn empty_desktop_gives_empty_snapshot() {
    let snap = collect_snapshot(vec![]).ok().unwrap();
    assert!(snap.app_windows.is_empty());
}

#[test]
fn calculator_parts_and_paths() {
    assert_eq!(CalculatorPart::at(0), CalculatorPart::Expression);
    assert_eq!(CalculatorPart::Expression.drill_path(), vec![1, 2, 1, 0]);
    assert_eq!(CalculatorPart::Display.drill_path(), vec![1, 2, 1, 1, 0]);
    assert_eq!(CalculatorPart::SevenButton.drill_path(), vec![1, 2, 1, 20, 7]);
    assert_eq!(CalculatorPart::EqualsButton.drill_path(), vec![1, 2, 1, 18, 4]);
    assert_eq!(CalculatorPart::ClearButton.drill_path(), vec![1, 2, 1, 9, 0]);
    assert_eq!(CalculatorPart::ScientificNotationToggleButton.drill_path(), vec![1, 2, 1, 3, 1]);
    assert_eq!(CalculatorPart::ScientificNotationToggleButton.label(), "scientific_notation_togglebutton");
    assert_eq!(CalculatorPart::at(CALCULATOR_PART_COUNT - 1), CalculatorPart::ScientificNotationToggleButton);
    for i in 0..CALCULATOR_PART_COUNT {
        assert_eq!(CalculatorPart::at(i).index(), i);
    }
}

fn info(n: usize) -> ElementInfo {
    ElementInfo::new(
        format!("part {}", n),
        IRect { min_x: 0, min_y: 0, max_x: 1, max_y: 1 },
        50000,
        "button".to_string(),
        "Button".to_string(),
        String::new(),
        vec![n as i32],
    )
}

#[test]
fn calculator_resolver_reads_every_part_in_order() {
    let mut r = CalculatorResolver::new();
    let mut n = 0;
    while let Some(part) = r.next_part() {
        assert_eq!(part.index(), n);
        r.add(info(n));
        n += 1;
    }
    assert_eq!(n, CALCULATOR_PART_COUNT);
    let snap = r.finish().unwrap();
    assert_eq!(snap.part(CalculatorPart::NineButton).name, "part 11");
    assert_eq!(snap.part(CalculatorPart::Expression).name, "part 0");
}

#[test]
fn calculator_resolver_needs_every_part() {
    let mut r = CalculatorResolver::new();
    r.add(info(0));
    assert!(r.finish().is_none());
}

#[test]
fn calculator_result_ignores_focus() {
    let mut a = CalculatorResolver::new();
    let mut b = CalculatorResolver::new();
    for n in 0..CALCULATOR_PART_COUNT {
        a.add(info(n));
        b.add(info(n));
    }
    let fa = cursor_hero::calculator::resolve_calculator(a, true).unwrap();
    let fb = cursor_hero::calculator::resolve_calculator(b, false).unwrap();
    assert_eq!(fa.part(CalculatorPart::PiButton).name, fb.part(CalculatorPart::PiButton).name);
    assert!(cursor_hero::calculator::resolve_calculator(CalculatorResolver::new(), true).is_none());
}
