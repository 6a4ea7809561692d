//! The click tool: which sounds, click events and host clicks follow the presses and
//! releases of its two buttons.

use vstd::prelude::*;

verus! {

/// The click tool's buttons.
#[derive(Clone, Copy, Debug, PartialEq, Eq, Structural)]
pub enum ClickToolAction {
    LeftClick,
    RightClick,
}

/// A button going down or coming up.
#[derive(Clone, Copy, Debug, PartialEq, Eq, Structural)]
pub enum Motion {
    Up,
    Down,
}

/// A mouse button.
#[derive(Clone, Copy, Debug, PartialEq, Eq, Structural)]
pub enum Way {
    Left,
    Right,
}

/// What the worker that clicks on the host is told to do.
#[derive(Clone, Copy, Debug, PartialEq, Eq, Structural)]
pub enum ClickThreadMessage {
    LeftMouse(Motion),
    RightMouse(Motion),
}

/// The sound asset played when `a` moves as `m`.
pub open spec fn audio_path_spec(a: ClickToolAction, m: Motion) -> Seq<char> {
    match (a, m) {
        (ClickToolAction::LeftClick, Motion::Down) => "sounds/mouse1down.ogg"@,
        (ClickToolAction::LeftClick, Motion::Up) => "sounds/mouse1up.ogg"@,
        (ClickToolAction::RightClick, Motion::Down) => "sounds/mouse2down.ogg"@,
        (ClickToolAction::RightClick, Motion::Up) => "sounds/mouse2up.ogg"@,
    }
}

/// The mouse button of `a`.
pub open spec fn way_of(a: ClickToolAction) -> Way {
    match a {
        ClickToolAction::LeftClick => Way::Left,
        ClickToolAction::RightClick => Way::Right,
    }
}

/// The message that makes the worker move the host's button of `a` as `m`.
pub open spec fn thread_message_of(a: ClickToolAction, m: Motion) -> ClickThreadMessage {
    match a {
        ClickToolAction::LeftClick => ClickThreadMessage::LeftMouse(m),
        ClickToolAction::RightClick => ClickThreadMessage::RightMouse(m),
    }
}

impl ClickToolAction {
    /// The tool's buttons, in the order in which their input is handled.
    pub fn variants() -> (r: Vec<ClickToolAction>)
        ensures
            r@ == seq![ClickToolAction::LeftClick, ClickToolAction::RightClick],
    {
        vec![ClickToolAction::LeftClick, ClickToolAction::RightClick]
    }

    /// The sound asset played when this button moves as `motion`.
    pub fn get_audio_path(&self, motion: Motion) -> (r: &'static str)
        ensures
            r@ == audio_path_spec(*self, motion),
    {
        match (self, motion) {
            (ClickToolAction::LeftClick, Motion::Down) => "sounds/mouse1down.ogg",
            (ClickToolAction::LeftClick, Motion::Up) => "sounds/mouse1up.ogg",
            (ClickToolAction::RightClick, Motion::Down) => "sounds/mouse2down.ogg",
            (ClickToolAction::RightClick, Motion::Up) => "sounds/mouse2up.ogg",
        }
    }

    /// The message that makes the worker move the host's matching button as `motion`.
    pub fn get_thread_message(&self, motion: Motion) -> (r: ClickThreadMessage)
        ensures
            r == thread_message_of(*self, motion),
    {
        match self {
            ClickToolAction::LeftClick => ClickThreadMessage::LeftMouse(motion),
            ClickToolAction::RightClick => ClickThreadMessage::RightMouse(motion),
        }
    }
}

impl From<ClickToolAction> for Way {
    fn from(action: ClickToolAction) -> (r: Way) {
        match action {
            ClickToolAction::LeftClick => Way::Left,
            ClickToolAction::RightClick => Way::Right,
        }
    }
}

impl vstd::std_specs::convert::FromSpecImpl<ClickToolAction> for Way {
    open spec fn obeys_from_spec() -> bool {
        true
    }

    open spec fn from_spec(action: ClickToolAction) -> Way {
        way_of(action)
    }
}

/// Whether a button went down or came up during the last update.
#[derive(Clone, Copy, Debug, PartialEq, Eq, Structural)]
pub struct ButtonEdges {
    pub just_pressed: bool,
    pub just_released: bool,
}

/// What follows a button's press or release.
#[derive(Clone, Copy, Debug, PartialEq, Eq, Structural)]
pub enum ClickEffect {
    /// Play the sound of the button moving, at the pointer.
    PlaySound(ClickToolAction, Motion),
    /// Announce a virtual press of the button's way at the pointer.
    Pressed(Way),
    /// Announce a virtual release of the button's way at the pointer.
    Released(Way),
    /// Tell the worker to move the host's button at the pointer; where the message is
    /// sent, play the button's sound.
    SendToWorker(ClickToolAction, Motion),
}

/// What follows the button `a` moving as `m`: over the game window, its sound and a
/// virtual click; elsewhere, a host click by the worker.
pub open spec fn motion_effects(a: ClickToolAction, m: Motion, over_window: bool) -> Seq<
    ClickEffect,
> {
    if over_window {
        seq![
            ClickEffect::PlaySound(a, m),
            match m {
                Motion::Down => ClickEffect::Pressed(way_of(a)),
                Motion::Up => ClickEffect::Released(way_of(a)),
            },
        ]
    } else {
        seq![ClickEffect::SendToWorker(a, m)]
    }
}

/// What follows the edges `e` of the button `a`: its press first, then its release.
pub open spec fn button_effects(a: ClickToolAction, e: ButtonEdges, over_window: bool) -> Seq<
    ClickEffect,
> {
    (if e.just_pressed {
        motion_effects(a, Motion::Down, over_window)
    } else {
        seq![]
    }) + (if e.just_released {
        motion_effects(a, Motion::Up, over_window)
    } else {
        seq![]
    })
}

/// What follows the edges of both buttons, the left button first.
pub open spec fn click_effects(left: ButtonEdges, right: ButtonEdges, over_window: bool) -> Seq<
    ClickEffect,
> {
    button_effects(ClickToolAction::LeftClick, left, over_window) + button_effects(
        ClickToolAction::RightClick,
        right,
        over_window,
    )
}

fn push_motion_effects(
    out: &mut Vec<ClickEffect>,
    a: ClickToolAction,
    m: Motion,
    over_window: bool,
)
    ensures
        final(out)@ == old(out)@ + motion_effects(a, m, over_window),
{
    if over_window {
        out.push(ClickEffect::PlaySound(a, m));
        let way: Way = Way::from(a);
        match m {
            Motion::Down => out.push(ClickEffect::Pressed(way)),
            Motion::Up => out.push(ClickEffect::Released(way)),
        }
    } else {
        out.push(ClickEffect::SendToWorker(a, m));
    }
    assert(final(out)@ =~= old(out)@ + motion_effects(a, m, over_window));
}

fn push_button_effects(
    out: &mut Vec<ClickEffect>,
    a: ClickToolAction,
    e: ButtonEdges,
    over_window: bool,
)
    ensures
        final(out)@ == old(out)@ + button_effects(a, e, over_window),
{
    let ghost start = out@;
    if e.just_pressed {
        push_motion_effects(out, a, Motion::Down, over_window);
    }
    let ghost mid = out@;
    if e.just_released {
        push_motion_effects(out, a, Motion::Up, over_window);
    }
    assert(out@ =~= start + button_effects(a, e, over_window));
}

/// What the click tool does after an update in which its buttons had the edges `left`
/// and `right`, with the host's cursor over the game window or not (see
/// `click_effects`); nothing where neither button moved.
pub fn plan_click_effects(left: ButtonEdges, right: ButtonEdges, over_window: bool) -> (r: Vec<
    ClickEffect,
>)
    ensures
        r@ == click_effects(left, right, over_window),
        r@.len() == (if over_window {
            2int
        } else {
            1int
        }) * ((if left.just_pressed {
            1int
        } else {
            0int
        }) + (if left.just_released {
            1int
        } else {
            0int
        }) + (if right.just_pressed {
            1int
        } else {
            0int
        }) + (if right.just_released {
            1int
        } else {
            0int
        })),
{
    let mut out: Vec<ClickEffect> = Vec::new();
    if !(left.just_pressed || left.just_released || right.just_pressed || right.just_released) {
        assert(out@ =~= click_effects(left, right, over_window));
        return out;
    }
    push_button_effects(&mut out, ClickToolAction::LeftClick, left, over_window);
    push_button_effects(&mut out, ClickToolAction::RightClick, right, over_window);
    assert(out@ =~= click_effects(left, right, over_window));
    out
}

/// Law: the worker's message moves the host button of the action's own way, as the
/// action moved: a left click moves the host's left button and a right click its right
/// one; the left button is the left way and the right button the right way; and no two
/// button moves give the same message.
pub proof fn lemma_thread_message_follows_way()
    ensures
        way_of(ClickToolAction::LeftClick) == Way::Left,
        way_of(ClickToolAction::RightClick) == Way::Right,
        forall|a: ClickToolAction, m: Motion|
            (#[trigger] thread_message_of(a, m) == ClickThreadMessage::LeftMouse(m)) <==> way_of(a)
                == Way::Left,
        forall|a: ClickToolAction, m: Motion|
            (#[trigger] thread_message_of(a, m) == ClickThreadMessage::RightMouse(m))
                <==> way_of(a) == Way::Right,
        forall|a: ClickToolAction, m: Motion, b: ClickToolAction, n: Motion|
            #[trigger] thread_message_of(a, m) == #[trigger] thread_message_of(b, n) ==> a == b
                && m == n,
{
}

} // verus!
