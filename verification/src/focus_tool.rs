//! The focus tool: cycling between the camera following the character, the camera
//! wandering on its own, and the character wandering away from the camera.

use vstd::prelude::*;

verus! {

/// Who the camera and the movement tools follow.
#[derive(Clone, Copy, Debug, PartialEq, Eq, Structural)]
pub enum FocusMode {
    CameraFollowsCharacter,
    CameraWanders,
    CharacterWanders,
}

/// The mode that cycling leaves `m` for.
pub open spec fn next_mode(m: FocusMode) -> FocusMode {
    match m {
        FocusMode::CameraFollowsCharacter => FocusMode::CameraWanders,
        FocusMode::CameraWanders => FocusMode::CharacterWanders,
        FocusMode::CharacterWanders => FocusMode::CameraFollowsCharacter,
    }
}

impl FocusMode {
    /// The mode that cycling leaves this one for.
    pub fn next(&self) -> (r: FocusMode)
        ensures
            r == next_mode(*self),
    {
        match self {
            FocusMode::CameraFollowsCharacter => FocusMode::CameraWanders,
            FocusMode::CameraWanders => FocusMode::CharacterWanders,
            FocusMode::CharacterWanders => FocusMode::CameraFollowsCharacter,
        }
    }
}

impl Default for FocusMode {
    fn default() -> (r: FocusMode)
        ensures
            r == FocusMode::CameraFollowsCharacter,
    {
        FocusMode::CameraFollowsCharacter
    }
}

/// What the movement tools move.
#[derive(Clone, Copy, Debug, PartialEq, Eq, Structural)]
pub enum MovementTargetKind {
    Character,
    Camera,
}

/// What the camera is told about the character.
#[derive(Clone, Copy, Debug, PartialEq, Eq, Structural)]
pub enum CameraCommand {
    BeginFollowing,
    StopFollowing,
}

/// What entering a mode does: the camera command, what the movement tools move, and
/// whether the character is moved to where the camera is.
#[derive(Clone, Copy, Debug, PartialEq, Eq, Structural)]
pub struct FocusTransition {
    pub camera: CameraCommand,
    pub movement_target: MovementTargetKind,
    pub snap_character_to_camera: bool,
}

/// The mode that the movement tools' target and whether the camera follows the
/// character show.
pub open spec fn derived_mode(target: MovementTargetKind, followed: bool) -> FocusMode {
    match target {
        MovementTargetKind::Character => if followed {
            FocusMode::CameraFollowsCharacter
        } else {
            FocusMode::CharacterWanders
        },
        MovementTargetKind::Camera => FocusMode::CameraWanders,
    }
}

/// What entering `m` does.
pub open spec fn transition_into(m: FocusMode) -> FocusTransition {
    match m {
        FocusMode::CameraFollowsCharacter => FocusTransition {
            camera: CameraCommand::BeginFollowing,
            movement_target: MovementTargetKind::Character,
            snap_character_to_camera: true,
        },
        FocusMode::CameraWanders => FocusTransition {
            camera: CameraCommand::StopFollowing,
            movement_target: MovementTargetKind::Camera,
            snap_character_to_camera: false,
        },
        FocusMode::CharacterWanders => FocusTransition {
            camera: CameraCommand::StopFollowing,
            movement_target: MovementTargetKind::Character,
            snap_character_to_camera: false,
        },
    }
}

/// The mode that the movement tools' target and whether the camera follows the
/// character show (see `derived_mode`).
pub fn derive_focus_mode(target: MovementTargetKind, followed: bool) -> (r: FocusMode)
    ensures
        r == derived_mode(target, followed),
{
    match target {
        MovementTargetKind::Character => if followed {
            FocusMode::CameraFollowsCharacter
        } else {
            FocusMode::CharacterWanders
        },
        MovementTargetKind::Camera => FocusMode::CameraWanders,
    }
}

/// What entering `mode` does (see `transition_into`).
pub fn focus_transition(mode: FocusMode) -> (r: FocusTransition)
    ensures
        r == transition_into(mode),
{
    match mode {
        FocusMode::CameraFollowsCharacter => FocusTransition {
            camera: CameraCommand::BeginFollowing,
            movement_target: MovementTargetKind::Character,
            snap_character_to_camera: true,
        },
        FocusMode::CameraWanders => FocusTransition {
            camera: CameraCommand::StopFollowing,
            movement_target: MovementTargetKind::Camera,
            snap_character_to_camera: false,
        },
        FocusMode::CharacterWanders => FocusTransition {
            camera: CameraCommand::StopFollowing,
            movement_target: MovementTargetKind::Character,
            snap_character_to_camera: false,
        },
    }
}

/// What a press of the cycle button does, given what the movement tools move and
/// whether the camera follows the character: enter the mode after the one they show.
pub fn cycle_focus(target: MovementTargetKind, followed: bool) -> (r: FocusTransition)
    ensures
        r == transition_into(next_mode(derived_mode(target, followed))),
{
    let mode = derive_focus_mode(target, followed);
    focus_transition(mode.next())
}

/// Law: cycling visits every mode: three steps come back to the start, and no step
/// stays put.
pub proof fn lemma_next_mode_cycles(m: FocusMode)
    ensures
        next_mode(next_mode(next_mode(m))) == m,
        next_mode(m) != m,
{
}

/// Law: after a cycle's transition is carried out, the movement tools' target and
/// whether the camera follows the character show the mode that was entered.
pub proof fn lemma_cycle_shows_next_mode(target: MovementTargetKind, followed: bool)
    ensures
        ({
            let t = transition_into(next_mode(derived_mode(target, followed)));
            derived_mode(t.movement_target, t.camera is BeginFollowing) == next_mode(
                derived_mode(target, followed),
            )
        }),
{
}

} // verus!
