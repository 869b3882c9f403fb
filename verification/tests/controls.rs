use shader_lab::controls::{accepts_size, ControlAction, Key, LabControls, SearchState};
use shader_lab::scene::SceneType;

fn text(s: &str) -> Key {
    Key::Text(s.to_string())
}

#[test]
fn escape_quits_when_not_searching() {
    let mut c = LabControls::new(SceneType::NoiseBlur);
    assert_eq!(c.key_pressed(Key::Escape), ControlAction::Exit);
}

#[test]
fn c_toggles_comparison_in_either_case() {
    let mut c = LabControls::new(SceneType::NoiseBlur);
    assert!(c.compare_enabled);
    assert_eq!(c.key_pressed(text("c")), ControlAction::Continue);
    assert!(!c.compare_enabled);
    assert_eq!(c.key_pressed(text("C")), ControlAction::Continue);
    assert!(c.compare_enabled);
    c.key_pressed(text("cc"));
    assert!(c.compare_enabled);
}

#[test]
fn arrows_cycle_through_scenes() {
    let mut c = LabControls::new(SceneType::NoiseBlur);
    assert_eq!(c.key_pressed(Key::ArrowRight), ControlAction::SwitchScene(SceneType::Sobel));
    assert_eq!(c.key_pressed(Key::ArrowRight), ControlAction::SwitchScene(SceneType::Voronoi));
    assert_eq!(c.key_pressed(Key::ArrowRight), ControlAction::SwitchScene(SceneType::NoiseBlur));
    assert_eq!(c.key_pressed(Key::ArrowLeft), ControlAction::SwitchScene(SceneType::Voronoi));
    assert_eq!(c.scene, SceneType::Voronoi);
}

#[test]
fn search_switches_to_first_match() {
    let mut c = LabControls::new(SceneType::NoiseBlur);
    assert_eq!(c.key_pressed(text("/")), ControlAction::Continue);
    assert!(c.search.active);
    c.key_pressed(text("NO"));
    c.key_pressed(text("i"));
    c.key_pressed(text("s"));
    c.key_pressed(text("x"));
    c.key_pressed(Key::Backspace);
    assert_eq!(c.search.query, "NOis");
    assert_eq!(c.search.candidates(), vec![SceneType::NoiseBlur, SceneType::Voronoi]);
    assert_eq!(c.key_pressed(Key::Enter), ControlAction::SwitchScene(SceneType::NoiseBlur));
    assert!(!c.search.active);
    assert_eq!(c.search.query, "");
}

#[test]
fn search_for_voronoi() {
    let mut c = LabControls::new(SceneType::NoiseBlur);
    c.key_pressed(text("/"));
    c.key_pressed(text("vor"));
    assert_eq!(c.key_pressed(Key::Enter), ControlAction::SwitchScene(SceneType::Voronoi));
    assert_eq!(c.scene, SceneType::Voronoi);
}

#[test]
fn search_keys_do_not_act_while_typing() {
    let mut c = LabControls::new(SceneType::Sobel);
    c.key_pressed(text("/"));
    assert_eq!(c.key_pressed(text("c")), ControlAction::Continue);
    assert!(c.compare_enabled);
    assert_eq!(c.key_pressed(Key::ArrowRight), ControlAction::Continue);
    assert_eq!(c.scene, SceneType::Sobel);
    assert_eq!(c.key_pressed(Key::Escape), ControlAction::Continue);
    assert!(!c.search.active);
    assert_eq!(c.scene, SceneType::Sobel);
    assert_eq!(c.key_pressed(Key::Escape), ControlAction::Exit);
}

#[test]
fn search_without_match_switches_nothing() {
    let mut c = LabControls::new(SceneType::Sobel);
    c.key_pressed(text("/"));
    c.key_pressed(text("zzz"));
    assert_eq!(c.key_pressed(Key::Enter), ControlAction::Continue);
    assert_eq!(c.scene, SceneType::Sobel);
    assert!(!c.search.active);
}

#[test]
fn empty_search_matches_every_scene() {
    let s = SearchState::new();
    assert_eq!(
        s.candidates(),
        vec![SceneType::NoiseBlur, SceneType::Sobel, SceneType::Voronoi]
    );
}

#[test]
fn search_state_operations() {
    let mut s = SearchState::default();
    assert!(!s.active);
    s.begin();
    assert!(s.active);
    s.type_text("edge");
    assert!(s.matches(SceneType::Sobel));
    assert!(!s.matches(SceneType::Voronoi));
    s.backspace();
    assert_eq!(s.query, "edg");
    assert_eq!(s.submit(), Some(SceneType::Sobel));
    assert!(!s.active);
    s.backspace();
    assert_eq!(s.query, "");
}

#[test]
fn mouse_drag_follows_left_button() {
    let mut c = LabControls::new(SceneType::NoiseBlur);
    assert!(!c.follows_cursor());
    assert!(c.mouse_button(true, true));
    assert!(c.follows_cursor());
    assert!(!c.mouse_button(false, true));
    assert!(c.follows_cursor());
    assert!(!c.mouse_button(true, false));
    assert!(!c.follows_cursor());
}

#[test]
fn frame_counter_advances_and_wraps() {
    let mut c = LabControls::new(SceneType::NoiseBlur);
    let f = c.begin_frame();
    assert_eq!(f.frame_index, 0);
    assert_eq!(f.compare_enabled, 1);
    assert_eq!(c.frame_index, 1);
    c.key_pressed(text("c"));
    assert_eq!(c.begin_frame().compare_enabled, 0);
    c.frame_index = u32::MAX;
    assert_eq!(c.begin_frame().frame_index, u32::MAX);
    assert_eq!(c.frame_index, 0);
}

#[test]
fn zero_sized_windows_are_ignored() {
    assert!(accepts_size(1280, 720));
    assert!(!accepts_size(0, 720));
    assert!(!accepts_size(1280, 0));
}

#[test]
fn opening_and_cancelling_search_changes_nothing() {
    let mut c = LabControls::new(SceneType::Voronoi);
    c.key_pressed(Key::Text("c".to_string()));
    c.key_pressed(Key::Text("/".to_string()));
    assert_eq!(c.key_pressed(Key::Escape), ControlAction::Continue);
    assert_eq!(c.scene, SceneType::Voronoi);
    assert!(!c.compare_enabled);
    assert!(!c.search.active);
    assert_eq!(c.search.query, "");
}

#[test]
fn right_then_left_returns_to_the_scene() {
    for s in SceneType::all() {
        let mut c = LabControls::new(*s);
        c.key_pressed(Key::ArrowRight);
        c.key_pressed(Key::ArrowLeft);
        assert_eq!(c.scene, *s);
        c.key_pressed(Key::ArrowLeft);
        c.key_pressed(Key::ArrowRight);
        assert_eq!(c.scene, *s);
    }
}
