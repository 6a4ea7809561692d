//! Which application a top-level window belongs to, and how the windows that were
//! resolved make up a snapshot of the desktop.

use vstd::prelude::*;

use crate::calculator::CalculatorSnapshot;
use crate::vscode::VSCodeWindow;

verus! {

/// The UI Automation control type id of a window.
pub const CONTROL_TYPE_WINDOW: i32 = 50032i32;

/// The UI Automation control type id of a pane.
pub const CONTROL_TYPE_PANE: i32 = 50033i32;

/// The applications that the library knows how to read.
#[derive(Clone, Copy, Debug, PartialEq, Eq, Structural)]
pub enum AppKind {
    VSCode,
    Calculator,
}

/// Whether `s` ends with `suffix`.
pub open spec fn ends_with(s: Seq<char>, suffix: Seq<char>) -> bool {
    s.len() >= suffix.len() && s.subrange(s.len() - suffix.len(), s.len() as int) == suffix
}

/// The application of a top-level element with the given name, control type and class
/// name (each `None` where it could not be read): Visual Studio Code for a pane of class
/// "Chrome_WidgetWin_1" whose name ends with "Visual Studio Code", the calculator for a
/// window of class "ApplicationFrameWindow" named "Calculator", and none otherwise.
pub open spec fn app_kind_of(
    name: Option<String>,
    control_type: Option<i32>,
    class_name: Option<String>,
) -> Option<AppKind> {
    match (name, control_type, class_name) {
        (Some(n), Some(ct), Some(c)) => if ct == CONTROL_TYPE_PANE && ends_with(
            n@,
            "Visual Studio Code"@,
        ) && c@ == "Chrome_WidgetWin_1"@ {
            Some(AppKind::VSCode)
        } else if ct == CONTROL_TYPE_WINDOW && n@ == "Calculator"@ && c@
            == "ApplicationFrameWindow"@ {
            Some(AppKind::Calculator)
        } else {
            None
        },
        _ => None,
    }
}

fn str_ends_with(s: &String, suffix: &str) -> (r: bool)
    ensures
        r == ends_with(s@, suffix@),
{
    let n = s.as_str().unicode_len();
    let k = suffix.unicode_len();
    if n < k {
        return false;
    }
    let mut i: usize = 0;
    while i < k
        invariant
            n == s@.len(),
            k == suffix@.len(),
            k <= n,
            i <= k,
            forall|j: int| 0 <= j < i ==> s@[n - k + j] == suffix@[j],
        decreases k - i,
    {
        if s.as_str().get_char(n - k + i) != suffix.get_char(i) {
            assert(s@.subrange(n - k, n as int)[i as int] != suffix@[i as int]);
            return false;
        }
        i = i + 1;
    }
    assert(s@.subrange(n - k, n as int) =~= suffix@);
    true
}

fn string_is(s: &String, t: &str) -> (r: bool)
    ensures
        r == (s@ == t@),
{
    let expected = String::from_str(t);
    *s == expected
}

/// The application that a top-level element belongs to (see `app_kind_of`).
pub fn classify_app(
    name: &Option<String>,
    control_type: Option<i32>,
    class_name: &Option<String>,
) -> (r: Option<AppKind>)
    ensures
        r == app_kind_of(*name, control_type, *class_name),
{
    match (name, control_type, class_name) {
        (Some(n), Some(ct), Some(c)) => {
            if ct == CONTROL_TYPE_PANE && str_ends_with(n, "Visual Studio Code") && string_is(
                c,
                "Chrome_WidgetWin_1",
            ) {
                Some(AppKind::VSCode)
            } else if ct == CONTROL_TYPE_WINDOW && string_is(n, "Calculator") && string_is(
                c,
                "ApplicationFrameWindow",
            ) {
                Some(AppKind::Calculator)
            } else {
                None
            }
        },
        _ => None,
    }
}

/// Why a top-level window could not be resolved.
#[derive(Debug)]
pub enum AppResolveError {
    /// The window belongs to no application the library knows.
    NoMatch,
    /// The window's tree is not shaped as expected.
    BadStructure(String),
    /// Reading the window failed.
    Failed(String),
}

/// A resolved application window.
#[derive(Debug)]
pub enum AppWindow {
    VSCode(VSCodeWindow),
    Calculator(CalculatorSnapshot),
}

/// The application windows found on the desktop.
#[derive(Debug)]
pub struct UISnapshot {
    pub app_windows: Vec<AppWindow>,
}

/// Why a snapshot could not be taken.
#[derive(Debug)]
pub enum GatherAppsError {
    /// Windows of known applications could not be resolved: the errors, in order.
    ResolveFailed(Vec<AppResolveError>),
    /// UI Automation failed: its error code and message.
    Automation(i32, String),
}

/// The errors among `results` that are not `NoMatch`, in order.
pub open spec fn bad_errors(results: Seq<Result<AppWindow, AppResolveError>>) -> Seq<
    AppResolveError,
>
    decreases results.len(),
{
    if results.len() == 0 {
        seq![]
    } else {
        let rest = bad_errors(results.drop_last());
        match results.last() {
            Err(e) => if e is NoMatch {
                rest
            } else {
                rest.push(e)
            },
            Ok(_) => rest,
        }
    }
}

/// The windows among `results` that were resolved, in order.
pub open spec fn resolved_windows(results: Seq<Result<AppWindow, AppResolveError>>) -> Seq<
    AppWindow,
>
    decreases results.len(),
{
    if results.len() == 0 {
        seq![]
    } else {
        let rest = resolved_windows(results.drop_last());
        match results.last() {
            Ok(w) => rest.push(w),
            Err(_) => rest,
        }
    }
}

/// The snapshot made of what resolving each top-level window gave, in desktop order:
/// the resolved windows in order, unless some window failed otherwise than by matching
/// no application, in which case all such failures, in order.
pub fn collect_snapshot(results: Vec<Result<AppWindow, AppResolveError>>) -> (r: Result<
    UISnapshot,
    GatherAppsError,
>)
    ensures
        bad_errors(results@).len() == 0 ==> (r matches Ok(snap) && snap.app_windows@
            == resolved_windows(results@)),
        bad_errors(results@).len() > 0 ==> (r matches Err(
            GatherAppsError::ResolveFailed(errs),
        ) && errs@ == bad_errors(results@)),
{
    let ghost all = results@;
    let mut pending = results;
    let mut apps: Vec<AppWindow> = Vec::new();
    let mut errors: Vec<AppResolveError> = Vec::new();
    let n = pending.len();
    let mut i: usize = 0;
    assert(pending@ =~= all.skip(0));
    assert(all.take(0) =~= Seq::<Result<AppWindow, AppResolveError>>::empty());
    while i < n
        invariant
            n == all.len(),
            i <= n,
            pending@ == all.skip(i as int),
            apps@ == resolved_windows(all.take(i as int)),
            errors@ == bad_errors(all.take(i as int)),
        decreases n - i,
    {
        let item = pending.remove(0);
        assert(item == all[i as int]);
        assert(all.take(i + 1).drop_last() =~= all.take(i as int));
        assert(all.take(i + 1).last() == item);
        match item {
            Ok(w) => {
                apps.push(w);
            },
            Err(e) => {
                if !matches!(e, AppResolveError::NoMatch) {
                    errors.push(e);
                }
            },
        }
        i = i + 1;
        assert(pending@ =~= all.skip(i as int));
    }
    assert(all.take(n as int) =~= all);
    if errors.len() > 0 {
        Err(GatherAppsError::ResolveFailed(errors))
    } else {
        Ok(UISnapshot { app_windows: apps })
    }
}

/// Law: the snapshot's windows are exactly the resolved windows among the results, all
/// of them and in order: the `Ok` results, taken out of their `Ok`.
pub proof fn lemma_resolved_windows_are_the_ok_results(
    results: Seq<Result<AppWindow, AppResolveError>>,
)
    ensures
        resolved_windows(results) == results.filter(
            |r: Result<AppWindow, AppResolveError>| r is Ok,
        ).map_values(|r: Result<AppWindow, AppResolveError>| r->Ok_0),
        resolved_windows(results).len() == results.filter(
            |r: Result<AppWindow, AppResolveError>| r is Ok,
        ).len(),
    decreases results.len(),
{
    reveal(Seq::filter);
    let pred = |r: Result<AppWindow, AppResolveError>| r is Ok;
    let f = |r: Result<AppWindow, AppResolveError>| r->Ok_0;
    if results.len() > 0 {
        lemma_resolved_windows_are_the_ok_results(results.drop_last());
        let sub = results.drop_last().filter(pred);
        if pred(results.last()) {
            assert(results.filter(pred) == sub.push(results.last()));
            assert(sub.push(results.last()).map_values(f) =~= sub.map_values(f).push(
                f(results.last()),
            ));
        } else {
            assert(results.filter(pred) == sub);
        }
    } else {
        assert(results.filter(pred).map_values(f) =~= Seq::<AppWindow>::empty());
    }
}

/// Law: the errors that fail a snapshot are exactly the failures among the results
/// other than `NoMatch`, all of them and in order.
pub proof fn lemma_bad_errors_are_the_real_failures(results: Seq<Result<AppWindow, AppResolveError>>)
    ensures
        bad_errors(results) == results.filter(
            |r: Result<AppWindow, AppResolveError>| r is Err && !(r->Err_0 is NoMatch),
        ).map_values(|r: Result<AppWindow, AppResolveError>| r->Err_0),
    decreases results.len(),
{
    reveal(Seq::filter);
    let pred = |r: Result<AppWindow, AppResolveError>| r is Err && !(r->Err_0 is NoMatch);
    let f = |r: Result<AppWindow, AppResolveError>| r->Err_0;
    if results.len() > 0 {
        lemma_bad_errors_are_the_real_failures(results.drop_last());
        let sub = results.drop_last().filter(pred);
        if pred(results.last()) {
            assert(results.filter(pred) == sub.push(results.last()));
            assert(sub.push(results.last()).map_values(f) =~= sub.map_values(f).push(
                f(results.last()),
            ));
        } else {
            assert(results.filter(pred) == sub);
        }
    } else {
        assert(results.filter(pred).map_values(f) =~= Seq::<AppResolveError>::empty());
    }
}

} // verus!
