//! The keyboard tool: which host keys its actions press and release, with a repeat
//! delay between presses of a held key.

use vstd::prelude::*;

verus! {

/// The keyboard tool's actions.
#[derive(Clone, Copy, Debug, PartialEq, Eq, Structural)]
pub enum KeyboardToolAction {
    Ctrl,
    Tab,
    Enter,
    Backspace,
    Shift,
    Space,
    Windows,
    UpArrow,
    DownArrow,
    LeftArrow,
    RightArrow,
}

/// A host key.
#[derive(Clone, Copy, Debug, PartialEq, Eq, Structural)]
pub enum HostKey {
    Control,
    Tab,
    Return,
    Backspace,
    Shift,
    Space,
    Meta,
    UpArrow,
    DownArrow,
    LeftArrow,
    RightArrow,
}

/// The host key that `a` sends.
pub open spec fn host_key_of(a: KeyboardToolAction) -> HostKey {
    match a {
        KeyboardToolAction::Ctrl => HostKey::Control,
        KeyboardToolAction::Tab => HostKey::Tab,
        KeyboardToolAction::Enter => HostKey::Return,
        KeyboardToolAction::Backspace => HostKey::Backspace,
        KeyboardToolAction::Shift => HostKey::Shift,
        KeyboardToolAction::Space => HostKey::Space,
        KeyboardToolAction::Windows => HostKey::Meta,
        KeyboardToolAction::UpArrow => HostKey::UpArrow,
        KeyboardToolAction::DownArrow => HostKey::DownArrow,
        KeyboardToolAction::LeftArrow => HostKey::LeftArrow,
        KeyboardToolAction::RightArrow => HostKey::RightArrow,
    }
}

impl KeyboardToolAction {
    /// The host key that this action sends.
    pub fn to_enigo(self) -> (r: HostKey)
        ensures
            r == host_key_of(self),
    {
        match self {
            KeyboardToolAction::Ctrl => HostKey::Control,
            KeyboardToolAction::Tab => HostKey::Tab,
            KeyboardToolAction::Enter => HostKey::Return,
            KeyboardToolAction::Backspace => HostKey::Backspace,
            KeyboardToolAction::Shift => HostKey::Shift,
            KeyboardToolAction::Space => HostKey::Space,
            KeyboardToolAction::Windows => HostKey::Meta,
            KeyboardToolAction::UpArrow => HostKey::UpArrow,
            KeyboardToolAction::DownArrow => HostKey::DownArrow,
            KeyboardToolAction::LeftArrow => HostKey::LeftArrow,
            KeyboardToolAction::RightArrow => HostKey::RightArrow,
        }
    }
}

/// The state of an action's button during an update.
#[derive(Clone, Copy, Debug, PartialEq, Eq, Structural)]
pub struct KeyInput {
    pub pressed: bool,
    pub just_released: bool,
}

/// What to do for an action during an update.
#[derive(Clone, Copy, Debug, PartialEq, Eq, Structural)]
pub struct KeyDecision {
    /// Start the repeat delay of the action.
    pub arm_repeat_delay: bool,
    /// Press the host key.
    pub press: bool,
    /// Release the host key.
    pub release: bool,
}

/// What to do for an action whose button is in state `input`, while its repeat delay
/// is running or not: a held button presses the key again once the delay is over (and
/// starts it anew), nothing else happens for it while the delay runs, and a button that
/// came up releases the key.
pub open spec fn key_decision_spec(input: KeyInput, delay_running: bool) -> KeyDecision {
    if input.pressed && delay_running {
        KeyDecision { arm_repeat_delay: false, press: false, release: false }
    } else {
        KeyDecision {
            arm_repeat_delay: input.pressed,
            press: input.pressed,
            release: input.just_released,
        }
    }
}

/// What to do for an action during an update (see `key_decision_spec`).
pub fn key_decision(input: KeyInput, delay_running: bool) -> (r: KeyDecision)
    ensures
        r == key_decision_spec(input, delay_running),
{
    if input.pressed && delay_running {
        KeyDecision { arm_repeat_delay: false, press: false, release: false }
    } else {
        KeyDecision {
            arm_repeat_delay: input.pressed,
            press: input.pressed,
            release: input.just_released,
        }
    }
}

/// Law: a key is pressed exactly when its button is held and its repeat delay is not
/// running, and each press starts the delay.
pub proof fn lemma_press_starts_delay(input: KeyInput, delay_running: bool)
    ensures
        key_decision_spec(input, delay_running).press == (input.pressed && !delay_running),
        key_decision_spec(input, delay_running).press == key_decision_spec(
            input,
            delay_running,
        ).arm_repeat_delay,
{
}

/// Law: each keyboard action sends the host key of the same name, and no two actions
/// send the same key.
pub proof fn lemma_host_key_same_name()
    ensures
        host_key_of(KeyboardToolAction::Ctrl) == HostKey::Control,
        host_key_of(KeyboardToolAction::Tab) == HostKey::Tab,
        host_key_of(KeyboardToolAction::Enter) == HostKey::Return,
        host_key_of(KeyboardToolAction::Backspace) == HostKey::Backspace,
        host_key_of(KeyboardToolAction::Shift) == HostKey::Shift,
        host_key_of(KeyboardToolAction::Space) == HostKey::Space,
        host_key_of(KeyboardToolAction::Windows) == HostKey::Meta,
        host_key_of(KeyboardToolAction::UpArrow) == HostKey::UpArrow,
        host_key_of(KeyboardToolAction::DownArrow) == HostKey::DownArrow,
        host_key_of(KeyboardToolAction::LeftArrow) == HostKey::LeftArrow,
        host_key_of(KeyboardToolAction::RightArrow) == HostKey::RightArrow,
        forall|a: KeyboardToolAction, b: KeyboardToolAction|
            #[trigger] host_key_of(a) == #[trigger] host_key_of(b) ==> a == b,
{
}

} // verus!
