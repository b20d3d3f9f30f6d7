use wl_showkeys::keys::{key_label, printable_text, Keypress};

fn shown(name: &str, utf8: &str) -> String {
    Keypress::new(name.to_string(), utf8.to_string()).text()
}

#[test]
fn typed_text_is_shown() {
    assert_eq!(shown("a", "a"), "a");
    assert_eq!(shown("eacute", "é"), "é");
    assert_eq!(shown("Return", "x"), "x");
}

#[test]
fn special_keys_have_labels() {
    for (name, text) in [
        ("Return", "⏎"),
        ("Tab", "⇥"),
        ("ISO_Left_Tab", "⇥"),
        ("BackSpace", "⇤"),
        ("space", "␣"),
        ("Caps_Lock", "⇪"),
        ("Escape", "Esc"),
        ("\u{07F0}", "Del"),
        ("Insert", "Ins"),
        ("Prior", "PgUp"),
        ("Next", "PgDn"),
        ("Up", "↑"),
        ("Down", "↓"),
        ("Left", "←"),
        ("Right", "→"),
    ] {
        assert_eq!(shown(name, ""), text);
    }
}

#[test]
fn held_keys_have_a_plus_sign() {
    for (name, text) in [
        ("Control_L", "<Ctrl>+"),
        ("Control_R", "<Ctrl>+"),
        ("Alt_L", "<Alt>+"),
        ("Alt_R", "<Alt>+"),
        ("Meta_L", "<Alt>+"),
        ("Meta_R", "<Alt>+"),
        ("ISO_Level3_Shift", "<AltGr>+"),
        ("Shift_L", "<Shift>+"),
        ("Shift_R", "<Shift>+"),
        ("Super_L", "<Super>+"),
        ("Super_R", "<Super>+"),
        ("dead_circumflex", "^+"),
        ("dead_tilde", "~+"),
        ("dead_grave", "`+"),
        ("dead_acute", "´+"),
        ("dead_diaeresis", "¨+"),
    ] {
        assert_eq!(shown(name, ""), text);
    }
    assert_eq!(key_label("Shift_L"), ("<Shift>", true));
    assert_eq!(key_label("Up"), ("↑", false));
}

#[test]
fn other_keys_are_shown_by_name() {
    assert_eq!(shown("F5", ""), "F5");
    assert_eq!(shown("XF86AudioMute", ""), "XF86AudioMute");
    assert_eq!(shown("", ""), "");
}

#[test]
fn control_characters_are_not_shown() {
    assert_eq!(printable_text("\r".to_string()), "");
    assert_eq!(printable_text(" ".to_string()), "");
    assert_eq!(printable_text("a\u{1b}".to_string()), "");
    assert_eq!(printable_text("ab".to_string()), "ab");
    assert_eq!(printable_text(String::new()), "");
    assert_eq!(shown("Return", "\r"), "⏎");
    assert_eq!(shown("space", " "), "␣");
    assert_eq!(shown("Delete", "\u{7f}"), "\u{7f}");
}
