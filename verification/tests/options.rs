use wl_showkeys::options::{anchor_edge, usage, ParsedArgs};
use wl_showkeys::state::AppState;

fn parse(state: &mut AppState, args: &[&str]) -> ParsedArgs {
    let mut all = vec!["wl-showkeys".to_string()];
    all.extend(args.iter().map(|a| a.to_string()));
    state.parse_args(&all)
}

#[test]
fn state_starts_with_defaults() {
    let state = AppState::new();
    assert_eq!(state.foreground, 0xFFFFFFFF);
    assert_eq!(state.background, 0x000000CC);
    assert_eq!(state.specialfg, 0xAAAAAAFF);
    assert_eq!(state.font, "monospace 24");
    assert_eq!(state.timeout, 1);
    assert_eq!(state.margin, 32);
    assert_eq!(state.padding, 5);
    assert_eq!(state.anchor, 0);
    assert_eq!(state.output_name, None);
    assert!(state.run);
    assert!(state.keys.is_empty());
}

#[test]
fn no_arguments_change_nothing() {
    let mut state = AppState::new();
    let parsed = state.parse_args(&Vec::new());
    assert!(!parsed.help);
    let parsed = parse(&mut state, &[]);
    assert!(!parsed.help && parsed.warnings.is_empty());
    assert_eq!(state.padding, 5);
}

#[test]
fn all_options_are_read() {
    let mut state = AppState::new();
    let parsed = parse(
        &mut state,
        &[
            "-b", "#11223344", "-f", "#aabbcc", "-s", "00ff0080", "-F", "sans 12", "-t", "7", "-a",
            "top", "-a", "right", "-m", "-3", "-p", "9", "-o", "HDMI-A-1",
        ],
    );
    assert!(!parsed.help && parsed.warnings.is_empty());
    assert_eq!(state.background, 0x11223344);
    assert_eq!(state.foreground, 0xaabbccff);
    assert_eq!(state.specialfg, 0x00ff0080);
    assert_eq!(state.font, "sans 12");
    assert_eq!(state.timeout, 7);
    assert_eq!(state.anchor, 9);
    assert_eq!(state.margin, -3);
    assert_eq!(state.padding, 9);
    assert_eq!(state.output_name, Some("HDMI-A-1".to_string()));
}

#[test]
fn edges_have_bits() {
    assert_eq!(anchor_edge("top"), 1);
    assert_eq!(anchor_edge("bottom"), 2);
    assert_eq!(anchor_edge("left"), 4);
    assert_eq!(anchor_edge("right"), 8);
    assert_eq!(anchor_edge("middle"), 0);
}

#[test]
fn edges_add_up() {
    let mut one = AppState::new();
    parse(&mut one, &["-a", "bottom", "-a", "left", "-a", "bottom", "-a", "nowhere"]);
    assert_eq!(one.anchor, 6);
    let mut two = AppState::new();
    parse(&mut two, &["-a", "left", "-a", "bottom"]);
    assert_eq!(two.anchor, one.anchor);
}

#[test]
fn unreadable_values_fall_back() {
    let mut state = AppState::new();
    let parsed = parse(&mut state, &["-t", "soon", "-m", "wide", "-p", "-1", "-b", "red", "-f", "zzzzzz"]);
    assert_eq!(state.timeout, 1);
    assert_eq!(state.margin, 32);
    assert_eq!(state.padding, 5);
    assert_eq!(state.background, 0xffffffff);
    assert_eq!(state.foreground, 0xffffffff);
    assert_eq!(
        parsed.warnings,
        vec!["Invalid color red, defaulting to 0xFFFFFFFF".to_string()]
    );
}

#[test]
fn last_value_counts() {
    let mut state = AppState::new();
    parse(&mut state, &["-p", "1", "-p", "2"]);
    assert_eq!(state.padding, 2);
}

#[test]
fn missing_value_and_other_arguments_are_ignored() {
    let mut state = AppState::new();
    let parsed = parse(&mut state, &["x", "-z", "-p"]);
    assert!(!parsed.help);
    assert_eq!(state.padding, 5);
}

#[test]
fn value_may_look_like_an_option() {
    let mut state = AppState::new();
    let parsed = parse(&mut state, &["-F", "-h", "-p", "3"]);
    assert!(!parsed.help);
    assert_eq!(state.font, "-h");
    assert_eq!(state.padding, 3);
}

#[test]
fn help_ends_the_reading() {
    let mut state = AppState::new();
    assert!(parse(&mut state, &["-p", "3", "-h", "-p", "4"]).help);
    assert_eq!(state.padding, 3);
    assert!(parse(&mut state, &["--help"]).help);
    assert!(usage().starts_with("usage: wl-showkeys [-b|-f|-s #RRGGBB[AA]]"));
}
