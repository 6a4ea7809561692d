//! Gathering the children of a UI element, one sibling at a time.
//!
//! Walking the UI tree is done by the caller: the gatherer says what it needs next
//! (the runtime id of the parent's last child, the first child, or the next sibling of
//! the child gathered last), and the caller hands back what the walk gave.

use vstd::prelude::*;

use crate::element_info::same_ids;

verus! {

/// When to stop walking the siblings of a parent's first child.
#[derive(Clone, Copy, Debug, PartialEq, Eq, Structural)]
pub enum StopBehaviour {
    /// Walk until there is no next sibling.
    EndOfSiblings,
    /// Stop at the sibling whose runtime id is that of the parent's last child.
    LastChildEncountered,
    /// Stop at the taskbar's end marker, which is not gathered.
    TaskbarEndEncountered,
    /// Stop at the desktop's "Program Manager" pane, the last child of the root.
    RootEndEncountered,
}

impl StopBehaviour {
    /// Whether the sibling that stops the walk is gathered too.
    pub fn include_last_child(&self) -> (r: bool)
        ensures
            r == !(*self is TaskbarEndEncountered),
    {
        !matches!(self, StopBehaviour::TaskbarEndEncountered)
    }
}

/// What the walk read of a sibling: each property is `None` where reading it failed.
#[derive(Debug)]
pub struct ElementProbe {
    pub runtime_id: Option<Vec<i32>>,
    pub automation_id: Option<String>,
    pub name: Option<String>,
    pub class_name: Option<String>,
}

/// The test that a sibling ends the walk.
#[derive(Debug)]
pub enum StopCondition {
    Never,
    RuntimeIdIs(Vec<i32>),
    TaskbarEnd,
    RootEnd,
}

/// Whether `o` holds exactly the chars `s`.
pub open spec fn holds_text(o: Option<String>, s: Seq<char>) -> bool {
    match o {
        Some(t) => t@ == s,
        None => false,
    }
}

/// Whether the sibling read as `p` ends the walk under `c`.
pub open spec fn stops_at(c: StopCondition, p: ElementProbe) -> bool {
    match c {
        StopCondition::Never => false,
        StopCondition::RuntimeIdIs(id) => match p.runtime_id {
            Some(r) => r@ == id@,
            None => false,
        },
        StopCondition::TaskbarEnd => holds_text(p.automation_id, "TaskbarEndAccessibilityElement"@),
        StopCondition::RootEnd => holds_text(p.name, "Program Manager"@) && holds_text(
            p.class_name,
            "Progman"@,
        ),
    }
}

fn text_is(o: &Option<String>, s: &str) -> (r: bool)
    ensures
        r == holds_text(*o, s@),
{
    match o {
        Some(t) => {
            let expected = String::from_str(s);
            *t == expected
        },
        None => false,
    }
}

impl StopCondition {
    /// Whether the sibling read as `probe` ends the walk.
    pub fn should_stop(&self, probe: &ElementProbe) -> (r: bool)
        ensures
            r == stops_at(*self, *probe),
    {
        match self {
            StopCondition::Never => false,
            StopCondition::RuntimeIdIs(id) => match &probe.runtime_id {
                Some(r) => same_ids(r, id),
                None => false,
            },
            StopCondition::TaskbarEnd => text_is(
                &probe.automation_id,
                "TaskbarEndAccessibilityElement",
            ),
            StopCondition::RootEnd => text_is(&probe.name, "Program Manager") && text_is(
                &probe.class_name,
                "Progman",
            ),
        }
    }
}

/// What the gatherer waits for.
#[derive(Clone, Copy, Debug, PartialEq, Eq, Structural)]
pub enum GatherPhase {
    /// The runtime id of the parent's last child (`None` where it could not be read).
    AwaitLastChildId,
    /// The parent's first child (`None` where it has none).
    AwaitFirstChild,
    /// The next sibling of the child gathered last (`None` where it has none).
    AwaitSibling,
    /// Nothing: the children are gathered.
    Done,
}

/// What the walk gave.
pub enum GatherEvent<E> {
    LastChildId(Option<Vec<i32>>),
    FirstChild(Option<E>),
    Sibling(Option<(E, ElementProbe)>),
}

/// Children of one parent, gathered as the walk hands them over.
pub struct ChildGatherer<E> {
    behaviour: StopBehaviour,
    phase: GatherPhase,
    stop: StopCondition,
    children: Vec<E>,
}

/// The state of a `ChildGatherer`.
pub struct GatherView<E> {
    pub behaviour: StopBehaviour,
    pub phase: GatherPhase,
    pub stop: StopCondition,
    pub children: Seq<E>,
}

/// The state a gatherer starts in.
pub open spec fn initial_gather<E>(b: StopBehaviour) -> GatherView<E> {
    GatherView {
        behaviour: b,
        phase: if b is LastChildEncountered {
            GatherPhase::AwaitLastChildId
        } else {
            GatherPhase::AwaitFirstChild
        },
        stop: match b {
            StopBehaviour::EndOfSiblings => StopCondition::Never,
            StopBehaviour::LastChildEncountered => StopCondition::Never,
            StopBehaviour::TaskbarEndEncountered => StopCondition::TaskbarEnd,
            StopBehaviour::RootEndEncountered => StopCondition::RootEnd,
        },
        children: seq![],
    }
}

/// The state after the walk gave `e` in state `s`; an event that does not answer what
/// `s` waits for leaves it unchanged.
pub open spec fn gather_next<E>(s: GatherView<E>, e: GatherEvent<E>) -> GatherView<E> {
    match (s.phase, e) {
        (GatherPhase::AwaitLastChildId, GatherEvent::LastChildId(id)) => match id {
            Some(v) => GatherView {
                phase: GatherPhase::AwaitFirstChild,
                stop: StopCondition::RuntimeIdIs(v),
                ..s
            },
            None => GatherView { phase: GatherPhase::Done, ..s },
        },
        (GatherPhase::AwaitFirstChild, GatherEvent::FirstChild(first)) => match first {
            Some(c) => GatherView {
                phase: GatherPhase::AwaitSibling,
                children: s.children.push(c),
                ..s
            },
            None => GatherView { phase: GatherPhase::Done, ..s },
        },
        (GatherPhase::AwaitSibling, GatherEvent::Sibling(sib)) => match sib {
            Some((c, p)) => if stops_at(s.stop, p) {
                GatherView {
                    phase: GatherPhase::Done,
                    children: if s.behaviour is TaskbarEndEncountered {
                        s.children
                    } else {
                        s.children.push(c)
                    },
                    ..s
                }
            } else {
                GatherView { children: s.children.push(c), ..s }
            },
            None => GatherView { phase: GatherPhase::Done, ..s },
        },
        _ => s,
    }
}

impl<E> View for ChildGatherer<E> {
    type V = GatherView<E>;

    closed spec fn view(&self) -> GatherView<E> {
        GatherView {
            behaviour: self.behaviour,
            phase: self.phase,
            stop: self.stop,
            children: self.children@,
        }
    }
}

impl<E> ChildGatherer<E> {
    /// A gatherer for the children of one parent, stopping as `behaviour` says.
    pub fn new(behaviour: StopBehaviour) -> (r: Self)
        ensures
            r@ == initial_gather::<E>(behaviour),
    {
        let (phase, stop) = match behaviour {
            StopBehaviour::EndOfSiblings => (GatherPhase::AwaitFirstChild, StopCondition::Never),
            StopBehaviour::LastChildEncountered => (
                GatherPhase::AwaitLastChildId,
                StopCondition::Never,
            ),
            StopBehaviour::TaskbarEndEncountered => (
                GatherPhase::AwaitFirstChild,
                StopCondition::TaskbarEnd,
            ),
            StopBehaviour::RootEndEncountered => (
                GatherPhase::AwaitFirstChild,
                StopCondition::RootEnd,
            ),
        };
        let r = ChildGatherer { behaviour, phase, stop, children: Vec::new() };
        assert(r@.children =~= Seq::<E>::empty());
        r
    }

    /// What the gatherer waits for.
    pub fn phase(&self) -> (r: GatherPhase)
        ensures
            r == self@.phase,
    {
        self.phase
    }

    /// The child gathered last, whose next sibling the walk reads next.
    pub fn last_gathered(&self) -> (r: Option<&E>)
        ensures
            self@.children.len() == 0 ==> r is None,
            self@.children.len() > 0 ==> r == Some(&self@.children.last()),
    {
        let n = self.children.len();
        if n == 0 {
            None
        } else {
            Some(&self.children[n - 1])
        }
    }

    /// Takes in what the walk gave.
    pub fn step(&mut self, event: GatherEvent<E>)
        ensures
            final(self)@ == gather_next(old(self)@, event),
    {
        match self.phase {
            GatherPhase::AwaitLastChildId => {
                if let GatherEvent::LastChildId(id) = event {
                    match id {
                        Some(v) => {
                            self.stop = StopCondition::RuntimeIdIs(v);
                            self.phase = GatherPhase::AwaitFirstChild;
                        },
                        None => {
                            self.phase = GatherPhase::Done;
                        },
                    }
                }
            },
            GatherPhase::AwaitFirstChild => {
                if let GatherEvent::FirstChild(first) = event {
                    match first {
                        Some(c) => {
                            self.children.push(c);
                            self.phase = GatherPhase::AwaitSibling;
                        },
                        None => {
                            self.phase = GatherPhase::Done;
                        },
                    }
                }
            },
            GatherPhase::AwaitSibling => {
                if let GatherEvent::Sibling(sib) = event {
                    match sib {
                        Some((c, p)) => {
                            if self.stop.should_stop(&p) {
                                if self.behaviour.include_last_child() {
                                    self.children.push(c);
                                }
                                self.phase = GatherPhase::Done;
                            } else {
                                self.children.push(c);
                            }
                        },
                        None => {
                            self.phase = GatherPhase::Done;
                        },
                    }
                }
            },
            GatherPhase::Done => {},
        }
    }

    /// The gathered children, in walk order.
    pub fn into_children(self) -> (r: Vec<E>)
        ensures
            r@ == self@.children,
    {
        self.children
    }
}

/// The state after taking in `events` from `s`, in order.
pub open spec fn gather_run<E>(s: GatherView<E>, events: Seq<GatherEvent<E>>) -> GatherView<E>
    decreases events.len(),
{
    if events.len() == 0 {
        s
    } else {
        gather_run(gather_next(s, events[0]), events.drop_first())
    }
}

/// The stop condition that `b` uses, given the runtime id of the parent's last child.
pub open spec fn stop_condition_of(b: StopBehaviour, last_id: Option<Vec<i32>>) -> StopCondition {
    match b {
        StopBehaviour::EndOfSiblings => StopCondition::Never,
        StopBehaviour::LastChildEncountered => match last_id {
            Some(v) => StopCondition::RuntimeIdIs(v),
            None => StopCondition::Never,
        },
        StopBehaviour::TaskbarEndEncountered => StopCondition::TaskbarEnd,
        StopBehaviour::RootEndEncountered => StopCondition::RootEnd,
    }
}

/// The siblings gathered from `sibs`, in walk order: up to the first one at which `c`
/// stops, which is kept only where `keep_stopper` holds.
pub open spec fn siblings_until_stop<E>(
    c: StopCondition,
    keep_stopper: bool,
    sibs: Seq<(E, ElementProbe)>,
) -> Seq<E>
    decreases sibs.len(),
{
    if sibs.len() == 0 {
        seq![]
    } else if stops_at(c, sibs[0].1) {
        if keep_stopper {
            seq![sibs[0].0]
        } else {
            seq![]
        }
    } else {
        seq![sibs[0].0] + siblings_until_stop(c, keep_stopper, sibs.drop_first())
    }
}

/// The events of a whole walk: the runtime id of the parent's last child where `b`
/// needs it, the first child, each sibling in turn, and then the end of the siblings.
pub open spec fn walk_events<E>(
    b: StopBehaviour,
    last_id: Option<Vec<i32>>,
    first: Option<E>,
    sibs: Seq<(E, ElementProbe)>,
) -> Seq<GatherEvent<E>> {
    (if b is LastChildEncountered {
        seq![GatherEvent::LastChildId(last_id)]
    } else {
        Seq::<GatherEvent<E>>::empty()
    }) + seq![GatherEvent::FirstChild(first)] + sibs.map_values(
        |x: (E, ElementProbe)| GatherEvent::Sibling(Some(x)),
    ) + seq![GatherEvent::Sibling(None)]
}

/// The children that a walk gathers: nothing where the last child's id is needed and
/// could not be read, or where there is no first child; else the first child and the
/// siblings up to the one that stops the walk.
pub open spec fn gathered_children<E>(
    b: StopBehaviour,
    last_id: Option<Vec<i32>>,
    first: Option<E>,
    sibs: Seq<(E, ElementProbe)>,
) -> Seq<E> {
    if b is LastChildEncountered && last_id is None {
        seq![]
    } else {
        match first {
            None => seq![],
            Some(f) => seq![f] + siblings_until_stop(
                stop_condition_of(b, last_id),
                !(b is TaskbarEndEncountered),
                sibs,
            ),
        }
    }
}

proof fn lemma_run_append<E>(s: GatherView<E>, a: Seq<GatherEvent<E>>, b: Seq<GatherEvent<E>>)
    ensures
        gather_run(s, a + b) == gather_run(gather_run(s, a), b),
    decreases a.len(),
{
    if a.len() == 0 {
        assert(a + b =~= b);
    } else {
        assert((a + b).drop_first() =~= a.drop_first() + b);
        assert((a + b)[0] == a[0]);
        lemma_run_append(gather_next(s, a[0]), a.drop_first(), b);
    }
}

proof fn lemma_run_done<E>(s: GatherView<E>, events: Seq<GatherEvent<E>>)
    requires
        s.phase is Done,
    ensures
        gather_run(s, events) == s,
    decreases events.len(),
{
    if events.len() > 0 {
        lemma_run_done(gather_next(s, events[0]), events.drop_first());
    }
}

proof fn lemma_run_siblings<E>(s: GatherView<E>, sibs: Seq<(E, ElementProbe)>)
    requires
        s.phase is AwaitSibling,
    ensures
        gather_run(
            s,
            sibs.map_values(|x: (E, ElementProbe)| GatherEvent::Sibling(Some(x))) + seq![
                GatherEvent::Sibling(None),
            ],
        ) == (GatherView {
            phase: GatherPhase::Done,
            children: s.children + siblings_until_stop(
                s.stop,
                !(s.behaviour is TaskbarEndEncountered),
                sibs,
            ),
            ..s
        }),
    decreases sibs.len(),
{
    let evs = sibs.map_values(|x: (E, ElementProbe)| GatherEvent::Sibling(Some(x))) + seq![
        GatherEvent::<E>::Sibling(None),
    ];
    let keep = !(s.behaviour is TaskbarEndEncountered);
    if sibs.len() == 0 {
        assert(evs =~= seq![GatherEvent::<E>::Sibling(None)]);
        assert(evs.drop_first() =~= Seq::<GatherEvent<E>>::empty());
        assert(s.children + siblings_until_stop(s.stop, keep, sibs) =~= s.children);
    } else {
        let rest = sibs.drop_first();
        let rest_evs = rest.map_values(|x: (E, ElementProbe)| GatherEvent::Sibling(Some(x)))
            + seq![GatherEvent::<E>::Sibling(None)];
        assert(evs[0] == GatherEvent::<E>::Sibling(Some(sibs[0])));
        assert(evs.drop_first() =~= rest_evs);
        let t = gather_next(s, evs[0]);
        if stops_at(s.stop, sibs[0].1) {
            lemma_run_done(t, rest_evs);
            if keep {
                assert(s.children.push(sibs[0].0) =~= s.children + siblings_until_stop(
                    s.stop,
                    keep,
                    sibs,
                ));
            } else {
                assert(s.children =~= s.children + siblings_until_stop(s.stop, keep, sibs));
            }
        } else {
            lemma_run_siblings(t, rest);
            assert(s.children.push(sibs[0].0) + siblings_until_stop(s.stop, keep, rest)
                =~= s.children + siblings_until_stop(s.stop, keep, sibs));
        }
    }
}

/// Law: a whole walk ends with the gatherer done, holding exactly the children that the
/// walk gathers (see `gathered_children`): siblings after the one that stops the walk
/// are never asked for, and an event for another phase changes nothing.
pub proof fn lemma_walk_gathers<E>(
    b: StopBehaviour,
    last_id: Option<Vec<i32>>,
    first: Option<E>,
    sibs: Seq<(E, ElementProbe)>,
)
    ensures
        gather_run(initial_gather::<E>(b), walk_events(b, last_id, first, sibs)).phase
            is Done,
        gather_run(initial_gather::<E>(b), walk_events(b, last_id, first, sibs)).children
            == gathered_children(b, last_id, first, sibs),
{
    let s0 = initial_gather::<E>(b);
    let pre: Seq<GatherEvent<E>> = if b is LastChildEncountered {
        seq![GatherEvent::LastChildId(last_id)]
    } else {
        Seq::<GatherEvent<E>>::empty()
    };
    let tail = sibs.map_values(|x: (E, ElementProbe)| GatherEvent::Sibling(Some(x))) + seq![
        GatherEvent::<E>::Sibling(None),
    ];
    let mid = seq![GatherEvent::<E>::FirstChild(first)];
    let all = walk_events(b, last_id, first, sibs);
    assert(all =~= pre + (mid + tail));
    lemma_run_append(s0, pre, mid + tail);
    let s1 = gather_run(s0, pre);
    if b is LastChildEncountered {
        assert(pre.drop_first() =~= Seq::<GatherEvent<E>>::empty());
        assert(gather_run(gather_next(s0, pre[0]), pre.drop_first()) == gather_next(s0, pre[0]));
        assert(s1 == gather_next(s0, pre[0]));
    } else {
        assert(s1 == s0);
    }
    if s1.phase is Done {
        lemma_run_done(s1, mid + tail);
    } else {
        lemma_run_append(s1, mid, tail);
        let s2 = gather_run(s1, mid);
        assert(mid.drop_first() =~= Seq::<GatherEvent<E>>::empty());
        assert(gather_run(gather_next(s1, mid[0]), mid.drop_first()) == gather_next(s1, mid[0]));
        assert(s2 == gather_next(s1, mid[0]));
        if s2.phase is Done {
            lemma_run_done(s2, tail);
            assert(s2.children =~= Seq::<E>::empty());
        } else {
            lemma_run_siblings(s2, sibs);
            assert(s2.stop == stop_condition_of(b, last_id));
        }
    }
}

/// Law: a sibling ends a walk towards the parent's last child exactly when its runtime
/// id could be read and equals that child's id element by element; it ends a taskbar
/// walk exactly when its automation id reads "TaskbarEndAccessibilityElement"; and it
/// ends a desktop walk exactly when its name reads "Program Manager" and its class name
/// "Progman".
pub proof fn lemma_stop_conditions_are_exact(id: Vec<i32>, p: ElementProbe)
    ensures
        stops_at(StopCondition::RuntimeIdIs(id), p) <==> (p.runtime_id is Some && p.runtime_id->0@.len()
            == id@.len() && forall|i: int|
            0 <= i < id@.len() ==> #[trigger] p.runtime_id->0@[i] == id@[i]),
        stops_at(StopCondition::TaskbarEnd, p) <==> (p.automation_id is Some
            && p.automation_id->0@ == "TaskbarEndAccessibilityElement"@),
        stops_at(StopCondition::RootEnd, p) <==> (p.name is Some && p.name->0@
            == "Program Manager"@ && p.class_name is Some && p.class_name->0@ == "Progman"@),
        !stops_at(StopCondition::Never, p),
{
    if let Some(r) = p.runtime_id {
        if r@.len() == id@.len() && forall|i: int| 0 <= i < id@.len() ==> r@[i] == id@[i] {
            assert(r@ =~= id@);
        }
    }
}

proof fn lemma_siblings_until_match<E>(id: Vec<i32>, sibs: Seq<(E, ElementProbe)>, k: int)
    requires
        0 <= k < sibs.len(),
        forall|j: int|
            0 <= j < k ==> (#[trigger] sibs[j]).1.runtime_id is None || (sibs[j]).1.runtime_id->0@
                != id@,
        sibs[k].1.runtime_id is Some && sibs[k].1.runtime_id->0@ == id@,
    ensures
        siblings_until_stop(StopCondition::RuntimeIdIs(id), true, sibs) == sibs.subrange(
            0,
            k + 1,
        ).map_values(|x: (E, ElementProbe)| x.0),
    decreases k,
{
    if k == 0 {
        assert(sibs.subrange(0, 1).map_values(|x: (E, ElementProbe)| x.0) =~= seq![sibs[0].0]);
    } else {
        let rest = sibs.drop_first();
        assert forall|j: int| 0 <= j < k - 1 implies (#[trigger] rest[j]).1.runtime_id is None
            || (rest[j]).1.runtime_id->0@ != id@ by {
            assert(rest[j] == sibs[j + 1]);
        }
        assert(rest[k - 1] == sibs[k]);
        lemma_siblings_until_match(id, rest, k - 1);
        assert(sibs[0] == sibs[0]);
        assert(!stops_at(StopCondition::RuntimeIdIs(id), sibs[0].1));
        assert(sibs.subrange(0, k + 1).map_values(|x: (E, ElementProbe)| x.0) =~= seq![sibs[0].0]
            + rest.subrange(0, k).map_values(|x: (E, ElementProbe)| x.0));
    }
}

/// Law: a walk towards the parent's last child, whose runtime id `last_id` could be
/// read, gathers the first child and every sibling up to and including the first one
/// whose runtime id equals `last_id`: siblings whose id differs, even in one element,
/// or could not be read, never stop it.
pub proof fn lemma_last_child_walk_stops_at_equal_id<E>(
    last_id: Vec<i32>,
    first: E,
    sibs: Seq<(E, ElementProbe)>,
    k: int,
)
    requires
        0 <= k < sibs.len(),
        forall|j: int|
            0 <= j < k ==> (#[trigger] sibs[j]).1.runtime_id is None || (sibs[j]).1.runtime_id->0@
                != last_id@,
        sibs[k].1.runtime_id is Some && sibs[k].1.runtime_id->0@ == last_id@,
    ensures
        gathered_children(StopBehaviour::LastChildEncountered, Some(last_id), Some(first), sibs)
            == seq![first] + sibs.subrange(0, k + 1).map_values(|x: (E, ElementProbe)| x.0),
{
    lemma_siblings_until_match(last_id, sibs, k);
}

} // verus!
