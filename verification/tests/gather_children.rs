use cursor_hero::gather_children::ChildGatherer;
use cursor_hero::gather_children::ElementProbe;
use cursor_hero::gather_children::GatherEvent;
use cursor_hero::gather_children::GatherPhase;
use cursor_hero::gather_children::StopBehaviour;
use cursor_hero::gather_children::StopCondition;

fn probe(id: Vec<i32>, automation_id: &str, name: &str, class_name: &str) -> ElementProbe {
    ElementProbe {
        runtime_id: Some(id),
        automation_id: Some(automation_id.to_string()),
        name: Some(name.to_string()),
        class_name: Some(class_name.to_string()),
    }
}

fn plain(id: i32) -> ElementProbe {
    probe(vec![id], "", "", "")
}

fn walk(
    behaviour: StopBehaviour,
    last_id: Option<Vec<i32>>,
    first: Option<u32>,
    siblings: Vec<(u32, ElementProbe)>,
) -> (Vec<u32>, usize) {
    let mut g: ChildGatherer<u32> = ChildGatherer::new(behaviour);
    let mut asked_siblings = 0;
    let mut last_id = Some(last_id);
    let mut first = Some(first);
    let mut siblings = siblings.into_iter();
    loop {
        match g.phase() {
            GatherPhase::AwaitLastChildId => g.step(GatherEvent::LastChildId(last_id.take().unwrap())),
            GatherPhase::AwaitFirstChild => g.step(GatherEvent::FirstChild(first.take().unwrap())),
            GatherPhase::AwaitSibling => {
                asked_siblings += 1;
                g.step(GatherEvent::Sibling(siblings.next()));
            }
            GatherPhase::Done => break,
        }
    }
    (g.into_children(), asked_siblings)
}

#[test]
fn include_last_child_only_excludes_taskbar_end() {
    assert!(StopBehaviour::EndOfSiblings.include_last_child());
    assert!(StopBehaviour::LastChildEncountered.include_last_child());
    assert!(!StopBehaviour::TaskbarEndEncountered.include_last_child());
    assert!(StopBehaviour::RootEndEncountered.include_last_child());
}

#[test]
fn end_of_siblings_gathers_all() {
    let (kids, asked) = walk(
        StopBehaviour::EndOfSiblings,
        None,
        Some(1),
        vec![(2, plain(2)), (3, plain(3))],
    );
    assert_eq!(kids, vec![1, 2, 3]);
    assert_eq!(asked, 3);
}

#[test]
fn no_first_child_gathers_nothing() {
    let (kids, asked) = walk(StopBehaviour::EndOfSiblings, None, None, vec![(2, plain(2))]);
    assert_eq!(kids, Vec::<u32>::new());
    assert_eq!(asked, 0);
}

#[test]
fn last_child_stops_and_is_kept() {
    let (kids, asked) = walk(
        StopBehaviour::LastChildEncountered,
        Some(vec![7, 3]),
        Some(1),
        vec![(2, plain(2)), (3, probe(vec![7, 3], "", "", "")), (4, plain(4))],
    );
    assert_eq!(kids, vec![1, 2, 3]);
    assert_eq!(asked, 2);
}

#[test]
fn unreadable_last_child_gathers_nothing() {
    let (kids, _) = walk(StopBehaviour::LastChildEncountered, None, Some(1), vec![]);
    assert_eq!(kids, Vec::<u32>::new());
}

#[test]
fn taskbar_end_stops_and_is_dropped() {
    let (kids, asked) = walk(
        StopBehaviour::TaskbarEndEncountered,
        None,
        Some(1),
        vec![
            (2, plain(2)),
            (3, probe(vec![3], "TaskbarEndAccessibilityElement", "", "")),
            (4, plain(4)),
        ],
    );
    assert_eq!(kids, vec![1, 2]);
    assert_eq!(asked, 2);
}

#[test]
fn root_end_needs_name_and_class() {
    let (kids, asked) = walk(
        StopBehaviour::RootEndEncountered,
        None,
        Some(1),
        vec![
            (2, probe(vec![2], "", "Program Manager", "Other")),
            (3, probe(vec![3], "", "Program Manager", "Progman")),
            (4, plain(4)),
        ],
    );
    assert_eq!(kids, vec![1, 2, 3]);
    assert_eq!(asked, 2);
}

#[test]
fn stop_condition_needs_readable_properties() {
    let unreadable = ElementProbe { runtime_id: None, automation_id: None, name: None, class_name: None };
    assert!(!StopCondition::RuntimeIdIs(vec![1]).should_stop(&unreadable));
    assert!(!StopCondition::TaskbarEnd.should_stop(&unreadable));
    assert!(!StopCondition::RootEnd.should_stop(&unreadable));
    assert!(!StopCondition::Never.should_stop(&plain(1)));
    assert!(StopCondition::RuntimeIdIs(vec![1]).should_stop(&plain(1)));
    assert!(!StopCondition::RuntimeIdIs(vec![1, 2]).should_stop(&plain(1)));
}

#[test]
fn events_for_other_phases_change_nothing() {
    let mut g: ChildGatherer<u32> = ChildGatherer::new(StopBehaviour::EndOfSiblings);
    g.step(GatherEvent::Sibling(Some((9, plain(9)))));
    assert_eq!(g.phase(), GatherPhase::AwaitFirstChild);
    g.step(GatherEvent::FirstChild(Some(1)));
    assert_eq!(g.last_gathered(), Some(&1));
    g.step(GatherEvent::FirstChild(Some(5)));
    assert_eq!(g.phase(), GatherPhase::AwaitSibling);
    g.step(GatherEvent::Sibling(None));
    assert_eq!(g.phase(), GatherPhase::Done);
    g.step(GatherEvent::Sibling(Some((9, plain(9)))));
    assert_eq!(g.into_children(), vec![1]);
}
