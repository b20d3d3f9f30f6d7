use wayland_protocols_wlr::layer_shell::v1::client::zwlr_layer_shell_v1::Layer;
use wl_showkeys::events::{
    roundtrip_error, wants_keyboard, wants_keymap, Bind, Configured, Global, KeymapFormat, LayerSurfaceEvent,
    MissingGlobal, OutputChoice, OutputEvent,
};
use wl_showkeys::pool::{get_next_buffer, take_buffer, CreateOutcome};
use wl_showkeys::state::{AppState, Subpixel};

#[test]
fn globals_are_bound() {
    let mut state = AppState::new();
    let cases = [
        ("wl_compositor", 6, Global::Compositor, 4, None),
        ("wl_compositor", 3, Global::Compositor, 3, None),
        ("wl_shm", 2, Global::Shm, 1, None),
        ("wl_seat", 9, Global::Seat, 5, None),
        ("zwlr_layer_shell_v1", 4, Global::LayerShell, 1, None),
        ("wl_output", 4, Global::Output, 4, Some(0)),
        ("wl_output", 2, Global::Output, 2, Some(1)),
    ];
    for (interface, version, global, bound, output) in cases {
        assert_eq!(
            state.registry_event(interface, version),
            Some(Bind { global, version: bound, output })
        );
    }
    assert!(state.compositor && state.shm && state.seat && state.layer_shell);
    assert_eq!(state.outputs.len(), 2);
    assert_eq!(state.outputs[0].scale, 1);
    assert_eq!(state.outputs[0].subpixel, Subpixel::Unknown);
    assert_eq!(state.outputs[1].name, None);
    assert_eq!(state.registry_event("wl_data_device_manager", 3), None);
}

#[test]
fn required_globals_are_missed_in_order() {
    let mut state = AppState::new();
    assert_eq!(state.check_globals(), Err(MissingGlobal::Compositor));
    state.registry_event("wl_compositor", 4);
    assert_eq!(state.check_globals(), Err(MissingGlobal::Shm));
    state.registry_event("wl_shm", 1);
    assert_eq!(state.check_globals(), Err(MissingGlobal::LayerShell));
    assert_eq!(MissingGlobal::LayerShell.message(), "zwlr_layer_shell_v1 not available");
    state.registry_event("zwlr_layer_shell_v1", 1);
    assert_eq!(state.check_globals(), Ok(()));
}

#[test]
fn silent_compositor_is_reported() {
    assert_eq!(roundtrip_error("Backend(Io)"), "Roundtrip error: Backend(Io)");
}

#[test]
fn seat_with_keyboard_is_asked_for_it() {
    assert!(wants_keyboard(Some(2)));
    assert!(wants_keyboard(Some(3)));
    assert!(!wants_keyboard(Some(1)));
    assert!(!wants_keyboard(Some(5)));
    assert!(!wants_keyboard(Some(0)));
    assert!(!wants_keyboard(None));
}

#[test]
fn known_keymaps_are_read() {
    assert!(wants_keymap(Some(KeymapFormat::XkbV1), 10));
    assert!(!wants_keymap(Some(KeymapFormat::XkbV1), 0));
    assert!(!wants_keymap(Some(KeymapFormat::NoKeymap), 10));
    assert!(!wants_keymap(None, 10));
}

#[test]
fn keymap_ends_at_its_nul() {
    let mut state = AppState::new();
    assert_eq!(state.keymap_text(b"xkb_keymap {}\0\0"), None);
    state.xkb_context = true;
    assert_eq!(state.keymap_text(b"xkb_keymap {}\0junk"), Some("xkb_keymap {}"));
    assert_eq!(state.keymap_text(&[0xc3, 0x28, 0]), None);
    state.keymap_compiled(false);
    assert!(!state.xkb_state);
    state.keymap_compiled(true);
    state.keymap_compiled(false);
    assert!(state.xkb_state);
}

#[test]
fn outputs_are_described() {
    let mut state = AppState::new();
    state.registry_event("wl_output", 4);
    state.registry_event("wl_output", 4);
    state.output_event(1, OutputEvent::Scale(2));
    state.output_event(1, OutputEvent::Name("DP-1".to_string()));
    state.output_event(0, OutputEvent::Geometry(Some(Subpixel::HorizontalRgb)));
    state.output_event(0, OutputEvent::Geometry(None));
    state.output_event(0, OutputEvent::Other);
    state.output_event(99, OutputEvent::Scale(7));
    assert_eq!(state.outputs[0].scale, 1);
    assert_eq!(state.outputs[0].subpixel, Subpixel::HorizontalRgb);
    assert_eq!(state.outputs[1].scale, 2);
    assert_eq!(state.outputs[1].name, Some("DP-1".to_string()));
}

#[test]
fn output_is_chosen_by_name() {
    let mut state = AppState::new();
    state.registry_event("wl_output", 4);
    state.registry_event("wl_output", 4);
    state.registry_event("wl_output", 4);
    state.output_event(1, OutputEvent::Name("DP-1".to_string()));
    state.output_event(2, OutputEvent::Name("DP-1".to_string()));
    assert_eq!(state.choose_output(), OutputChoice::Any);
    state.output_name = Some("DP-1".to_string());
    assert_eq!(state.choose_output(), OutputChoice::At(1));
    state.output_name = Some("HDMI-A-1".to_string());
    assert_eq!(
        state.choose_output(),
        OutputChoice::NotFound {
            warning: "Warning: output 'HDMI-A-1' not found, using compositor default".to_string()
        }
    );
}

#[test]
fn surface_follows_its_output() {
    let mut state = AppState::new();
    state.registry_event("wl_output", 4);
    state.registry_event("wl_output", 4);
    state.output_event(1, OutputEvent::Scale(3));
    assert_eq!(state.current_scale(), 1);
    state.surface_entered(1);
    assert_eq!(state.current_output, Some(1));
    assert_eq!(state.current_scale(), 3);
    state.surface_entered(99);
    assert_eq!(state.current_output, Some(1));
}

#[test]
fn surface_is_set_up() {
    let mut state = AppState::new();
    state.anchor = 5;
    state.margin = 8;
    let settings = state.surface_created();
    assert!(state.surface && state.layer_surface);
    assert_eq!(settings.layer, u32::from(Layer::Top));
    assert_eq!(settings.layer, 2);
    assert_eq!(settings.namespace, "showkeys");
    assert_eq!((settings.width, settings.height), (1, 1));
    assert_eq!((settings.anchor, settings.margin, settings.exclusive_zone), (5, 8, -1));
    state.anchor = 0xfff5;
    assert_eq!(state.surface_created().anchor, 5);
}

#[test]
fn configure_is_acknowledged_before_the_frame() {
    let mut state = AppState::new();
    let event = LayerSurfaceEvent::Configure { serial: 4, width: 30, height: 20 };
    assert_eq!(state.layer_surface_event(event), Some(Configured { serial: 4, render: false }));
    state.surface_created();
    assert_eq!(state.layer_surface_event(event), Some(Configured { serial: 4, render: true }));
    assert_eq!((state.width, state.height), (30, 20));
    assert!(!state.dirty);
    state.frame_scheduled = true;
    assert_eq!(state.layer_surface_event(event), Some(Configured { serial: 4, render: false }));
    assert!(state.dirty);
    assert_eq!(state.layer_surface_event(LayerSurfaceEvent::Other), None);
    assert!(state.run);
    assert_eq!(state.layer_surface_event(LayerSurfaceEvent::Closed), None);
    assert!(!state.run);
}

#[test]
fn released_buffer_is_free_again() {
    let mut state = AppState::new();
    get_next_buffer(&mut state.buffers, 2, 2).unwrap();
    let made = CreateOutcome::Ready { data: 1, buffer: 5 };
    take_buffer(&mut state.buffers, 0, 2, 2, Some(made)).unwrap();
    assert!(state.buffers[0].busy);
    state.buffer_released(6);
    assert!(state.buffers[0].busy);
    state.buffer_released(5);
    assert!(!state.buffers[0].busy);
}

#[test]
fn outputs_announced_alike_are_told_apart() {
    let mut state = AppState::new();
    let first = state.registry_event("wl_output", 4).unwrap().output.unwrap();
    let second = state.registry_event("wl_output", 4).unwrap().output.unwrap();
    assert_ne!(first, second);
    state.output_event(second, OutputEvent::Scale(2));
    assert_eq!(state.outputs[first].scale, 1);
    assert_eq!(state.outputs[second].scale, 2);
    state.surface_entered(second);
    assert_eq!(state.current_scale(), 2);
}
