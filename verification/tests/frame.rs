use wl_showkeys::events::{LayerSurfaceEvent, OutputEvent};
use wl_showkeys::frame::{Commit, FrameAction, Presentation};
use wl_showkeys::input::{seat_error, KeyDirection, KeyUpdate, PollPlan};
use wl_showkeys::pool::{get_next_buffer, take_buffer, CreateOutcome};
use wl_showkeys::state::AppState;

fn press(state: &mut AppState, name: &str, utf8: &str, now: i64) {
    state.handle_libinput_event(Some((name.to_string(), utf8.to_string())), now);
}

fn ready() -> AppState {
    let mut state = AppState::new();
    state.registry_event("wl_compositor", 4);
    state.registry_event("wl_shm", 1);
    state.registry_event("zwlr_layer_shell_v1", 1);
    state.surface_created();
    state.keymap_compiled(true);
    state
}

#[test]
fn keys_need_a_keymap() {
    let mut state = AppState::new();
    assert_eq!(state.key_changed(30, true), None);
    assert_eq!(state.key_changed(u32::MAX, true), None);
    press(&mut state, "a", "a", 5);
    assert!(state.keys.is_empty());
    assert_eq!(state.last_key, 0);
    state.keymap_compiled(true);
    assert_eq!(
        state.key_changed(30, true),
        Some(KeyUpdate { code: 38, direction: KeyDirection::Down, ask: true })
    );
    assert_eq!(
        state.key_changed(30, false),
        Some(KeyUpdate { code: 38, direction: KeyDirection::Up, ask: false })
    );
    press(&mut state, "a", "a", 5);
    assert_eq!(state.keys.len(), 1);
    assert_eq!(state.last_key, 5);
}

#[test]
fn released_key_only_counts_as_activity() {
    let mut state = ready();
    press(&mut state, "Return", "\r", 5);
    state.handle_libinput_event(None, 9);
    assert_eq!(state.keys.len(), 1);
    assert_eq!(state.keys[0].name, "Return");
    assert_eq!(state.keys[0].utf8, "");
    assert_eq!(state.last_key, 9);
}

#[test]
fn keys_are_cleared_after_the_timeout() {
    let mut state = ready();
    state.timeout = 2;
    assert_eq!(state.poll_timeout(), None);
    press(&mut state, "a", "a", 10);
    press(&mut state, "b", "b", 11);
    assert_eq!(state.poll_timeout(), Some(100));
    let quiet = PollPlan { render: false, read_input: false, read_wayland: false };
    assert_eq!(state.after_poll(12, Some(0), None), quiet);
    assert_eq!(state.keys.len(), 2);
    let plan = state.after_poll(13, Some(0), Some(0));
    assert_eq!(plan, PollPlan { render: true, read_input: false, read_wayland: false });
    assert!(state.keys.is_empty());
    assert_eq!(state.after_poll(14, None, None), quiet);
}

#[test]
fn readable_descriptors_are_read() {
    let mut state = ready();
    let plan = state.after_poll(0, Some(1), Some(8));
    assert!(plan.read_input && !plan.read_wayland);
    let plan = state.after_poll(0, Some(4), Some(17));
    assert!(!plan.read_input && plan.read_wayland);
    let plan = state.after_poll(0, None, None);
    assert!(!plan.read_input && !plan.read_wayland);
}

#[test]
fn frame_follows_input() {
    let mut state = ready();
    assert!(!state.input_handled());
    press(&mut state, "a", "a", 1);
    assert!(state.input_handled());
    state.frame_scheduled = true;
    assert!(!state.input_handled());
    assert!(state.dirty);
}

#[test]
fn keys_are_laid_out_in_a_row() {
    let mut state = ready();
    state.padding = 3;
    press(&mut state, "Control_L", "", 1);
    press(&mut state, "c", "c", 1);
    press(&mut state, "Return", "\r", 1);
    assert_eq!(state.key_texts(), vec!["<Ctrl>+", "c", "⏎"]);
    let (mut width, mut height) = (0, 0);
    let sizes = vec![(70, 20), (10, 25), (12, 22)];
    let drawn = state.render_to_cairo(2, &sizes, &mut width, &mut height);
    assert_eq!(width, 70 + 6 + 10 + 6 + 12);
    assert_eq!(height, 25);
    assert_eq!(drawn.background, 0x000000CC);
    assert_eq!(drawn.font, "monospace 24");
    let places: Vec<(u32, u32, &str)> =
        drawn.keys.iter().map(|d| (d.x, d.color, d.text.as_str())).collect();
    assert_eq!(
        places,
        vec![
            (0, 0xAAAAAAFF, "<Ctrl>+"),
            (76, 0xFFFFFFFF, "c"),
            (92, 0xAAAAAAFF, "⏎"),
        ]
    );
}

#[test]
fn no_keys_need_no_room() {
    let state = ready();
    let (mut width, mut height) = (0, 0);
    assert!(state.render_to_cairo(1, &Vec::new(), &mut width, &mut height).keys.is_empty());
    assert_eq!((width, height), (0, 0));
}

#[test]
fn frame_is_drawn_after_the_handshake() {
    let mut state = ready();
    assert_eq!(
        state.render_frame(30, 20),
        FrameAction::Resize { width: 30, height: 20, layer_surface: true }
    );
    state.layer_surface_event(LayerSurfaceEvent::Configure { serial: 1, width: 30, height: 20 });
    assert_eq!(state.render_frame(30, 20), FrameAction::Draw);
    assert_eq!(state.buffer_size(30, 20), (30, 20));
    assert_eq!(
        state.render_frame(31, 20),
        FrameAction::Resize { width: 31, height: 20, layer_surface: true }
    );
}

#[test]
fn unmapped_surface_needs_a_new_handshake() {
    let mut state = ready();
    state.layer_surface_event(LayerSurfaceEvent::Configure { serial: 1, width: 30, height: 20 });
    assert_eq!(state.render_frame(0, 0), FrameAction::Unmap);
    assert_eq!((state.width, state.height), (0, 0));
    assert_eq!(
        state.render_frame(30, 20),
        FrameAction::Resize { width: 30, height: 20, layer_surface: true }
    );
}

#[test]
fn nothing_is_drawn_without_surface_or_memory() {
    let mut state = AppState::new();
    assert_eq!(state.render_frame(30, 20), FrameAction::Skip);
    state.surface_created();
    state.layer_surface_event(LayerSurfaceEvent::Configure { serial: 1, width: 30, height: 20 });
    assert_eq!(state.render_frame(30, 20), FrameAction::Skip);
}

#[test]
fn scaled_frame_asks_for_a_scaled_size() {
    let mut state = ready();
    state.registry_event("wl_output", 4);
    state.output_event(0, OutputEvent::Scale(2));
    state.surface_entered(0);
    assert_eq!(
        state.render_frame(61, 40),
        FrameAction::Resize { width: 30, height: 20, layer_surface: true }
    );
    state.layer_surface_event(LayerSurfaceEvent::Configure { serial: 1, width: 30, height: 20 });
    assert_eq!(state.render_frame(61, 40), FrameAction::Draw);
    assert_eq!(state.buffer_size(61, 40), (122, 80));
}

#[test]
fn drawn_buffer_is_presented() {
    let mut state = ready();
    state.layer_surface_event(LayerSurfaceEvent::Configure { serial: 1, width: 30, height: 20 });
    assert_eq!(state.present(0), Presentation { paint: false, commit: None });
    let next = get_next_buffer(&mut state.buffers, 30, 20).unwrap();
    let made = CreateOutcome::Ready { data: 1, buffer: 8 };
    take_buffer(&mut state.buffers, next.index, 30, 20, Some(made)).unwrap();
    assert_eq!(
        state.present(next.index),
        Presentation {
            paint: true,
            commit: Some(Commit {
                scale: 1,
                buffer: Some(8),
                damage_width: 30,
                damage_height: 20
            })
        }
    );
}

#[test]
fn missing_seat_is_reported() {
    assert_eq!(seat_error(), "Failed to assign seat");
}
