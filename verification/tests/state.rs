use notch::launch::{initial_layer_plan, pool_bytes};
use notch::state::{
    ModeLayout, NotchMode, NotchState, PointerInput, SeatCapability, BTN_LEFT, EXPANDED_HEIGHT,
    EXPANDED_WIDTH, HEIGHT, WIDTH,
};
use notch::surface::{configure, LayerPlan};

fn press(on_surface: bool, button: u32) -> PointerInput {
    PointerInput { on_surface, pressed_button: Some(button) }
}

#[test]
fn new_state_is_compact() {
    let s = NotchState::new();
    assert_eq!(s.mode, NotchMode::Compact);
    assert_eq!((s.width, s.height), (WIDTH, HEIGHT));
    assert!(s.first_configure);
    assert!(!s.exit);
    assert!(!s.has_pointer);
    assert!(!s.is_expanded());
}

#[test]
fn toggle_mode_switches_layout() {
    let mut s = NotchState::new();
    let l = s.toggle_mode();
    assert!(s.is_expanded());
    assert_eq!(l, ModeLayout { width: 420, height: 320, exclusive_zone: 0 });
    // the configured size waits for the compositor
    assert_eq!((s.width, s.height), (WIDTH, HEIGHT));
    let l = s.toggle_mode();
    assert!(!s.is_expanded());
    assert_eq!(l, ModeLayout { width: 280, height: 44, exclusive_zone: 37 });
}

#[test]
fn toggle_twice_restores_state() {
    let mut s = NotchState::new();
    s.configure(300, 50);
    let before = s;
    s.toggle_mode();
    s.toggle_mode();
    assert_eq!(s, before);
}

#[test]
fn configure_uses_mode_size_for_zero() {
    let mut s = NotchState::new();
    s.configure(0, 0);
    assert_eq!((s.width, s.height), (WIDTH, HEIGHT));
    assert!(!s.first_configure);
    s.toggle_mode();
    s.configure(0, 100);
    assert_eq!((s.width, s.height), (EXPANDED_WIDTH, 100));
    s.configure(640, 0);
    assert_eq!((s.width, s.height), (640, EXPANDED_HEIGHT));
    s.configure(1, 2);
    assert_eq!((s.width, s.height), (1, 2));
}

#[test]
fn pointer_frame_toggles_on_left_presses_on_surface() {
    let mut s = NotchState::new();
    let events = vec![
        press(true, BTN_LEFT),
        press(false, BTN_LEFT),
        press(true, 0x111),
        PointerInput { on_surface: true, pressed_button: None },
        press(true, BTN_LEFT),
        press(true, BTN_LEFT),
    ];
    let layouts = s.pointer_frame(&events);
    assert_eq!(
        layouts,
        vec![
            NotchMode::Expanded.layout(),
            NotchMode::Compact.layout(),
            NotchMode::Expanded.layout(),
        ]
    );
    assert_eq!(s.mode, NotchMode::Expanded);
}

#[test]
fn pointer_frame_even_presses_keep_mode() {
    let mut s = NotchState::new();
    let layouts = s.pointer_frame(&vec![press(true, BTN_LEFT), press(true, BTN_LEFT)]);
    assert_eq!(layouts.len(), 2);
    assert_eq!(s.mode, NotchMode::Compact);
    let layouts = s.pointer_frame(&vec![]);
    assert!(layouts.is_empty());
    assert_eq!(s.mode, NotchMode::Compact);
}

#[test]
fn capabilities_take_and_release_one_pointer() {
    let mut s = NotchState::new();
    assert!(!s.new_capability(SeatCapability::Keyboard));
    assert!(s.new_capability(SeatCapability::Pointer));
    assert!(s.has_pointer);
    assert!(!s.new_capability(SeatCapability::Pointer));
    assert!(!s.remove_capability(SeatCapability::Touch));
    assert!(s.has_pointer);
    assert!(s.remove_capability(SeatCapability::Pointer));
    assert!(!s.has_pointer);
    assert!(!s.remove_capability(SeatCapability::Pointer));
}

#[test]
fn closed_asks_to_exit() {
    let mut s = NotchState::new();
    s.closed();
    assert!(s.exit);
    assert_eq!(s.mode, NotchMode::Compact);
}

#[test]
fn layer_plans() {
    assert_eq!(
        configure(300, 40),
        LayerPlan {
            width: 300,
            height: 40,
            margin_top: 8,
            margin_right: 0,
            margin_bottom: 0,
            margin_left: 0,
            exclusive_zone: 0,
        }
    );
    assert_eq!(
        initial_layer_plan(),
        LayerPlan {
            width: 280,
            height: 44,
            margin_top: 3,
            margin_right: 0,
            margin_bottom: 0,
            margin_left: 0,
            exclusive_zone: 37,
        }
    );
}

#[test]
fn pool_holds_largest_frame() {
    assert_eq!(pool_bytes(), 537600);
    for mode in [NotchMode::Compact, NotchMode::Expanded] {
        let l = mode.layout();
        assert!((l.width * l.height * 4) as usize <= pool_bytes());
    }
}
