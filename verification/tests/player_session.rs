use liminal::engine::player::{
    classify_sound, is_audio_extension, str_contains, str_equal, tracks_named, SoundKind, StepCycle,
};
use liminal::liminal::{FrameAction, FrameKeys, Pickup, SessionState};
use liminal::world::block::Block;

fn no_keys() -> FrameKeys {
    FrameKeys {
        escape: false,
        key_q: false,
        key_y: false,
        bracket_left: false,
        bracket_right: false,
        minus: false,
        equal: false,
        key_t: false,
    }
}

#[test]
fn sound_kinds() {
    assert_eq!(classify_sound("footstep_1"), SoundKind::Step);
    assert_eq!(classify_sound("step"), SoundKind::Step);
    assert_eq!(classify_sound("ambience"), SoundKind::Ambience);
    assert_eq!(classify_sound("amb_step"), SoundKind::Step);
    assert_eq!(classify_sound("beep"), SoundKind::Named);
    assert_eq!(classify_sound("flashlight"), SoundKind::Named);
    assert_eq!(classify_sound("am"), SoundKind::Named);
    assert_eq!(classify_sound(""), SoundKind::Named);
}

#[test]
fn audio_extensions() {
    assert!(is_audio_extension(Some("wav")));
    assert!(is_audio_extension(Some("mp3")));
    assert!(!is_audio_extension(Some("ogg")));
    assert!(!is_audio_extension(Some("wavs")));
    assert!(!is_audio_extension(None));
}

#[test]
fn string_helpers() {
    assert!(str_equal("abc", "abc"));
    assert!(!str_equal("abc", "abd"));
    assert!(!str_equal("abc", "ab"));
    assert!(str_contains("hello", "ll"));
    assert!(str_contains("hello", ""));
    assert!(!str_contains("hello", "lo!"));
    assert!(str_contains("hello", "hello"));
}

#[test]
fn tracks_with_name() {
    let names = vec!["beep", "puff", "beep", "flashlight"];
    assert_eq!(tracks_named(&names, "beep"), vec![0, 2]);
    assert_eq!(tracks_named(&names, "flashlight"), vec![3]);
    assert_eq!(tracks_named(&names, "follow"), Vec::<usize>::new());
}

#[test]
fn step_cycle_wraps() {
    let mut cycle = StepCycle::new();
    let picks: Vec<usize> = (0..7).map(|_| cycle.next_index(3)).collect();
    assert_eq!(picks, vec![0, 1, 2, 0, 1, 2, 0]);
    assert_eq!(cycle.last_sound, 7);
}

#[test]
fn new_session() {
    let s = SessionState::new(false, true);
    assert_eq!(s.almond_waters, 0);
    assert!(s.collisions);
    assert!(!s.flashlight_on);
    assert!(!s.request_quit);
    assert!(s.request_grab);
}

#[test]
fn quiet_frame_changes_nothing() {
    let mut s = SessionState::new(false, false);
    let before = s;
    let actions = s.handle_frame_keys(no_keys(), false);
    assert!(actions.is_empty());
    assert_eq!(s, before);
}

#[test]
fn keys_toggle_and_order_actions() {
    let mut s = SessionState::new(false, false);
    let keys = FrameKeys {
        escape: true,
        key_q: true,
        key_y: true,
        bracket_left: true,
        bracket_right: true,
        minus: true,
        equal: true,
        key_t: true,
    };
    let actions = s.handle_frame_keys(keys, false);
    assert_eq!(
        actions,
        vec![
            FrameAction::HalveMoveSpeed,
            FrameAction::DoubleMoveSpeed,
            FrameAction::SlowerLook,
            FrameAction::FasterLook,
            FrameAction::FlashlightSound,
        ]
    );
    assert!(s.request_quit);
    assert!(s.request_grab);
    assert!(!s.collisions);
    assert!(s.flashlight_on);
    let again = s.handle_frame_keys(keys, false);
    assert_eq!(again.len(), 5);
    assert_eq!(s, SessionState::new(false, false));
}

#[test]
fn escape_toggles_quit_every_frame() {
    let mut s = SessionState::new(false, false);
    assert!(!s.has_escaped(false));
    assert!(s.has_escaped(true));
    let actions = s.handle_frame_keys(no_keys(), true);
    assert_eq!(actions, vec![FrameAction::AnnounceEscape]);
    assert!(s.request_quit);
    s.handle_frame_keys(no_keys(), true);
    assert!(!s.request_quit);
    let mut both = SessionState::new(false, false);
    let mut keys = no_keys();
    keys.escape = true;
    both.handle_frame_keys(keys, true);
    assert!(!both.request_quit);
}

#[test]
fn almond_water_goal() {
    let mut s = SessionState::new(false, false);
    s.almond_waters = 100;
    assert!(!s.has_escaped(false));
    s.almond_waters = 101;
    assert!(s.has_escaped(false));
}

#[test]
fn clicking_blocks() {
    let mut s = SessionState::new(false, false);
    assert_eq!(s.click_block(Block::Plain), None);
    assert_eq!(s.click_block(Block::Tape), None);
    assert_eq!(s.almond_waters, 0);
    for i in 1..=50 {
        assert!(s.click_block(Block::AlmondWater).is_some());
        assert_eq!(s.almond_waters, i);
    }
    let p = s.pickup_from(true, false);
    assert_eq!(p, Pickup { follower: true, lurker: false });
    assert_eq!(s.almond_waters, 51);
}
