//! The talk tool: push-to-talk, and switching always-on listening of voice to text.

use vstd::prelude::*;

verus! {

/// The state of the voice to text service.
#[derive(Debug)]
pub enum VoiceToTextStatus {
    /// Running, with the key it uses, and listening or not.
    Alive { api_key: String, listening: bool },
    /// Any other state: nothing can be switched.
    NotAlive,
}

/// What the service is told.
#[derive(Debug)]
pub enum VoiceToTextCommand {
    SetListening { listening: bool, api_key: String },
}

/// What switching always-on listening does: the command sent, and the status before
/// and after.
#[derive(Debug)]
pub struct ListeningToggle {
    pub command: VoiceToTextCommand,
    pub old_status: VoiceToTextStatus,
    pub new_status: VoiceToTextStatus,
}

/// The status after switching always-on listening in `s`: where the service is alive,
/// the same key with listening switched; else nothing.
pub open spec fn toggled_status(s: VoiceToTextStatus) -> Option<VoiceToTextStatus> {
    match s {
        VoiceToTextStatus::Alive { api_key, listening } => Some(
            VoiceToTextStatus::Alive { api_key, listening: !listening },
        ),
        VoiceToTextStatus::NotAlive => None,
    }
}

fn copy_status(s: &VoiceToTextStatus) -> (r: VoiceToTextStatus)
    ensures
        r == *s,
{
    match s {
        VoiceToTextStatus::Alive { api_key, listening } => VoiceToTextStatus::Alive {
            api_key: api_key.clone(),
            listening: *listening,
        },
        VoiceToTextStatus::NotAlive => VoiceToTextStatus::NotAlive,
    }
}

/// What a press of the always-on button does in status `status`: where the service is
/// alive, tell it to switch listening, with its key, and move to the switched status;
/// else nothing.
pub fn toggle_always_on(status: &VoiceToTextStatus) -> (r: Option<ListeningToggle>)
    ensures
        match (toggled_status(*status), r) {
            (None, None) => true,
            (Some(new_status), Some(t)) => t.old_status == *status && t.new_status
                == new_status && (*status matches VoiceToTextStatus::Alive { api_key, listening }
                && t.command == VoiceToTextCommand::SetListening {
                listening: !listening,
                api_key,
            }),
            _ => false,
        },
{
    match status {
        VoiceToTextStatus::Alive { api_key, listening } => {
            let new_status = VoiceToTextStatus::Alive {
                api_key: api_key.clone(),
                listening: !*listening,
            };
            let command = VoiceToTextCommand::SetListening {
                listening: !*listening,
                api_key: api_key.clone(),
            };
            Some(ListeningToggle { command, old_status: copy_status(status), new_status })
        },
        VoiceToTextStatus::NotAlive => None,
    }
}

/// Law: switching always-on listening twice comes back to the status it started from.
pub proof fn lemma_toggle_twice(s: VoiceToTextStatus)
    ensures
        toggled_status(s) matches Some(t) ==> toggled_status(t) == Some(s),
        s is NotAlive <==> toggled_status(s) is None,
{
}

/// What the push-to-talk button tells the worker that holds the host's listen key.
#[derive(Clone, Copy, Debug, PartialEq, Eq, Structural)]
pub enum ListenButton {
    Down,
    Up,
}

/// The messages that follow the push-to-talk button going down and coming up during an
/// update, in that order.
pub fn push_to_talk_messages(just_pressed: bool, just_released: bool) -> (r: Vec<ListenButton>)
    ensures
        r@ == (if just_pressed {
            seq![ListenButton::Down]
        } else {
            seq![]
        }) + (if just_released {
            seq![ListenButton::Up]
        } else {
            seq![]
        }),
{
    let mut r: Vec<ListenButton> = Vec::new();
    if just_pressed {
        r.push(ListenButton::Down);
    }
    if just_released {
        r.push(ListenButton::Up);
    }
    assert(r@ =~= (if just_pressed {
        seq![ListenButton::Down]
    } else {
        seq![]
    }) + (if just_released {
        seq![ListenButton::Up]
    } else {
        seq![]
    }));
    r
}

} // verus!
