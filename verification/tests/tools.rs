use cursor_hero::cursor_monitor_position_tool::snap_needed;
use cursor_hero::cursor_monitor_position_tool::too_many_active;
use cursor_hero::hello_tool::hello_prompt;
use cursor_hero::hello_tool::speech_for_response;
use cursor_hero::about_text::about_text;
use cursor_hero::click_tool::plan_click_effects;
use cursor_hero::click_tool::ButtonEdges;
use cursor_hero::click_tool::ClickEffect;
use cursor_hero::click_tool::ClickThreadMessage;
use cursor_hero::click_tool::ClickToolAction;
use cursor_hero::click_tool::Motion;
use cursor_hero::click_tool::Way;
use cursor_hero::focus_tool::cycle_focus;
use cursor_hero::focus_tool::derive_focus_mode;
use cursor_hero::focus_tool::focus_transition;
use cursor_hero::focus_tool::CameraCommand;
use cursor_hero::focus_tool::FocusMode;
use cursor_hero::focus_tool::MovementTargetKind;
use cursor_hero::keyboard_tool::key_decision;
use cursor_hero::keyboard_tool::HostKey;
use cursor_hero::keyboard_tool::KeyDecision;
use cursor_hero::keyboard_tool::KeyInput;
use cursor_hero::keyboard_tool::KeyboardToolAction;
use cursor_hero::level_bounds_visibility_tool::switch_visibility;
use cursor_hero::level_bounds_visibility_tool::Visibility;
use cursor_hero::scroll_tool::scroll_direction;
use cursor_hero::scroll_tool::ScrollDirection;
use cursor_hero::talk_tool::push_to_talk_messages;
use cursor_hero::talk_tool::toggle_always_on;
use cursor_hero::talk_tool::ListenButton;
use cursor_hero::talk_tool::VoiceToTextCommand;
use cursor_hero::talk_tool::VoiceToTextStatus;

const NONE: ButtonEdges = ButtonEdges { just_pressed: false, just_released: false };
const PRESS: ButtonEdges = ButtonEdges { just_pressed: true, just_released: false };
const RELEASE: ButtonEdges = ButtonEdges { just_pressed: false, just_released: true };

#[test]
fn click_sounds_and_messages() {
    assert_eq!(ClickToolAction::LeftClick.get_audio_path(Motion::Down), "sounds/mouse1down.ogg");
    assert_eq!(ClickToolAction::LeftClick.get_audio_path(Motion::Up), "sounds/mouse1up.ogg");
    assert_eq!(ClickToolAction::RightClick.get_audio_path(Motion::Down), "sounds/mouse2down.ogg");
    assert_eq!(ClickToolAction::RightClick.get_audio_path(Motion::Up), "sounds/mouse2up.ogg");
    assert_eq!(
        ClickToolAction::RightClick.get_thread_message(Motion::Up),
        ClickThreadMessage::RightMouse(Motion::Up)
    );
    assert_eq!(Way::from(ClickToolAction::LeftClick), Way::Left);
    assert_eq!(Way::from(ClickToolAction::RightClick), Way::Right);
    assert_eq!(ClickToolAction::variants(), vec![ClickToolAction::LeftClick, ClickToolAction::RightClick]);
}

#[test]
fn click_over_window_is_virtual() {
    assert_eq!(
        plan_click_effects(PRESS, RELEASE, true),
        vec![
            ClickEffect::PlaySound(ClickToolAction::LeftClick, Motion::Down),
            ClickEffect::Pressed(Way::Left),
            ClickEffect::PlaySound(ClickToolAction::RightClick, Motion::Up),
            ClickEffect::Released(Way::Right),
        ]
    );
}

#[test]
fn click_outside_window_goes_to_host() {
    assert_eq!(
        plan_click_effects(ButtonEdges { just_pressed: true, just_released: true }, NONE, false),
        vec![
            ClickEffect::SendToWorker(ClickToolAction::LeftClick, Motion::Down),
            ClickEffect::SendToWorker(ClickToolAction::LeftClick, Motion::Up),
        ]
    );
    assert_eq!(plan_click_effects(NONE, NONE, false), vec![]);
    assert_eq!(plan_click_effects(NONE, NONE, true), vec![]);
}

#[test]
fn focus_modes_cycle() {
    let m = FocusMode::default();
    assert_eq!(m, FocusMode::CameraFollowsCharacter);
    assert_eq!(m.next(), FocusMode::CameraWanders);
    assert_eq!(m.next().next(), FocusMode::CharacterWanders);
    assert_eq!(m.next().next().next(), m);
}

#[test]
fn focus_cycle_transitions() {
    assert_eq!(derive_focus_mode(MovementTargetKind::Character, true), FocusMode::CameraFollowsCharacter);
    assert_eq!(derive_focus_mode(MovementTargetKind::Character, false), FocusMode::CharacterWanders);
    assert_eq!(derive_focus_mode(MovementTargetKind::Camera, true), FocusMode::CameraWanders);
    let t = cycle_focus(MovementTargetKind::Character, true);
    assert_eq!(t, focus_transition(FocusMode::CameraWanders));
    assert_eq!(t.camera, CameraCommand::StopFollowing);
    assert_eq!(t.movement_target, MovementTargetKind::Camera);
    let t = cycle_focus(MovementTargetKind::Character, false);
    assert_eq!(t.camera, CameraCommand::BeginFollowing);
    assert!(t.snap_character_to_camera);
    let t = cycle_focus(MovementTargetKind::Camera, false);
    assert_eq!(t.camera, CameraCommand::StopFollowing);
    assert_eq!(t.movement_target, MovementTargetKind::Character);
    assert!(!t.snap_character_to_camera);
}

#[test]
fn keyboard_keys_and_repeat_delay() {
    assert_eq!(KeyboardToolAction::Windows.to_enigo(), HostKey::Meta);
    assert_eq!(KeyboardToolAction::Enter.to_enigo(), HostKey::Return);
    assert_eq!(KeyboardToolAction::Ctrl.to_enigo(), HostKey::Control);
    let held = KeyInput { pressed: true, just_released: false };
    assert_eq!(key_decision(held, false), KeyDecision { arm_repeat_delay: true, press: true, release: false });
    assert_eq!(key_decision(held, true), KeyDecision { arm_repeat_delay: false, press: false, release: false });
    let up = KeyInput { pressed: false, just_released: true };
    assert_eq!(key_decision(up, true), KeyDecision { arm_repeat_delay: false, press: false, release: true });
}

#[test]
fn talk_toggle_switches_listening() {
    let s = VoiceToTextStatus::Alive { api_key: "k".to_string(), listening: false };
    let t = toggle_always_on(&s).unwrap();
    assert!(matches!(t.new_status, VoiceToTextStatus::Alive { ref api_key, listening: true } if api_key == "k"));
    assert!(matches!(t.old_status, VoiceToTextStatus::Alive { listening: false, .. }));
    assert!(matches!(t.command, VoiceToTextCommand::SetListening { listening: true, ref api_key } if api_key == "k"));
    let back = toggle_always_on(&t.new_status).unwrap();
    assert!(matches!(back.new_status, VoiceToTextStatus::Alive { listening: false, .. }));
    assert!(toggle_always_on(&VoiceToTextStatus::NotAlive).is_none());
}

#[test]
fn push_to_talk() {
    assert_eq!(push_to_talk_messages(true, false), vec![ListenButton::Down]);
    assert_eq!(push_to_talk_messages(true, true), vec![ListenButton::Down, ListenButton::Up]);
    assert_eq!(push_to_talk_messages(false, false), vec![]);
}

#[test]
fn level_bounds_visibility_switches() {
    assert_eq!(switch_visibility(Visibility::Visible), Visibility::Hidden);
    assert_eq!(switch_visibility(Visibility::Hidden), Visibility::Visible);
    assert_eq!(switch_visibility(Visibility::Inherited), Visibility::Visible);
    assert_eq!(switch_visibility(switch_visibility(Visibility::Hidden)), Visibility::Hidden);
}

#[test]
fn scroll_down_wins() {
    assert_eq!(scroll_direction(true, true), Some(ScrollDirection::Down));
    assert_eq!(scroll_direction(true, false), Some(ScrollDirection::Up));
    assert_eq!(scroll_direction(false, false), None);
}

#[test]
fn about_text_names_version_and_author() {
    assert_eq!(about_text("0.4.0"), "Cursor Hero v0.4.0\nby @TeamDman");
}

#[test]
fn cursor_snaps_only_when_active_and_moved() {
    assert!(!snap_needed(0, true, true));
    assert!(!snap_needed(1, false, false));
    assert!(snap_needed(1, true, false));
    assert!(snap_needed(2, false, true));
    assert!(too_many_active(2));
    assert!(!too_many_active(1));
}

#[test]
fn hello_asks_for_a_word_and_speaks_the_answer() {
    let p = hello_prompt();
    assert_eq!(p.content, "Here is a random word:");
    assert_eq!(p.num_predict, Some(7));
    assert_eq!(speech_for_response(true, "banana".to_string()), Some("banana".to_string()));
    assert_eq!(speech_for_response(false, "banana".to_string()), None);
}
