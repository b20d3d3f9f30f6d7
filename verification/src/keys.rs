//! Key presses and the labels that they are shown with.

use crate::text::{chars_of, same_text};
use vstd::prelude::*;
use vstd::string::StringExecFns;

verus! {

/// A key that was pressed.
#[derive(Debug, Clone, PartialEq, Eq)]
pub struct Keypress {
    /// The name of its symbol.
    pub name: String,
    /// The text that it types; empty where there is none to show.
    pub utf8: String,
}

/// The label of a key that types no text to show, and whether it is one that is held for the next
/// key. A key without a label of its own is shown by its name.
pub open spec fn label_of(name: Seq<char>) -> (Seq<char>, bool) {
    if name == "Return"@ {
        ("⏎"@, false)
    } else if name == "Tab"@ || name == "ISO_Left_Tab"@ {
        ("⇥"@, false)
    } else if name == "BackSpace"@ {
        ("⇤"@, false)
    } else if name == "space"@ {
        ("␣"@, false)
    } else if name == "Control_L"@ || name == "Control_R"@ {
        ("<Ctrl>"@, true)
    } else if name == "Alt_L"@ || name == "Alt_R"@ || name == "Meta_L"@ || name == "Meta_R"@ {
        ("<Alt>"@, true)
    } else if name == "ISO_Level3_Shift"@ {
        ("<AltGr>"@, true)
    } else if name == "Shift_L"@ || name == "Shift_R"@ {
        ("<Shift>"@, true)
    } else if name == "Super_L"@ || name == "Super_R"@ {
        ("<Super>"@, true)
    } else if name == "Caps_Lock"@ {
        ("⇪"@, false)
    } else if name == "Escape"@ {
        ("Esc"@, false)
    } else if name == "\u{07F0}"@ {
        ("Del"@, false)
    } else if name == "Insert"@ {
        ("Ins"@, false)
    } else if name == "Prior"@ {
        ("PgUp"@, false)
    } else if name == "Next"@ {
        ("PgDn"@, false)
    } else if name == "Up"@ {
        ("↑"@, false)
    } else if name == "Down"@ {
        ("↓"@, false)
    } else if name == "Left"@ {
        ("←"@, false)
    } else if name == "Right"@ {
        ("→"@, false)
    } else if name == "dead_circumflex"@ {
        ("^"@, true)
    } else if name == "dead_tilde"@ {
        ("~"@, true)
    } else if name == "dead_grave"@ {
        ("`"@, true)
    } else if name == "dead_acute"@ {
        ("´"@, true)
    } else if name == "dead_diaeresis"@ {
        ("¨"@, true)
    } else {
        (name, false)
    }
}

/// The label of a key that types no text to show, and whether it is one that is held for the next
/// key.
pub fn key_label(name: &str) -> (r: (&str, bool))
    ensures
        (r.0@, r.1) == label_of(name@),
{
    if same_text(name, "Return") {
        ("⏎", false)
    } else if same_text(name, "Tab") || same_text(name, "ISO_Left_Tab") {
        ("⇥", false)
    } else if same_text(name, "BackSpace") {
        ("⇤", false)
    } else if same_text(name, "space") {
        ("␣", false)
    } else if same_text(name, "Control_L") || same_text(name, "Control_R") {
        ("<Ctrl>", true)
    } else if same_text(name, "Alt_L") || same_text(name, "Alt_R") || same_text(name, "Meta_L") || same_text(name, "Meta_R") {
        ("<Alt>", true)
    } else if same_text(name, "ISO_Level3_Shift") {
        ("<AltGr>", true)
    } else if same_text(name, "Shift_L") || same_text(name, "Shift_R") {
        ("<Shift>", true)
    } else if same_text(name, "Super_L") || same_text(name, "Super_R") {
        ("<Super>", true)
    } else if same_text(name, "Caps_Lock") {
        ("⇪", false)
    } else if same_text(name, "Escape") {
        ("Esc", false)
    } else if same_text(name, "\u{07F0}") {
        ("Del", false)
    } else if same_text(name, "Insert") {
        ("Ins", false)
    } else if same_text(name, "Prior") {
        ("PgUp", false)
    } else if same_text(name, "Next") {
        ("PgDn", false)
    } else if same_text(name, "Up") {
        ("↑", false)
    } else if same_text(name, "Down") {
        ("↓", false)
    } else if same_text(name, "Left") {
        ("←", false)
    } else if same_text(name, "Right") {
        ("→", false)
    } else if same_text(name, "dead_circumflex") {
        ("^", true)
    } else if same_text(name, "dead_tilde") {
        ("~", true)
    } else if same_text(name, "dead_grave") {
        ("`", true)
    } else if same_text(name, "dead_acute") {
        ("´", true)
    } else if same_text(name, "dead_diaeresis") {
        ("¨", true)
    } else {
        (name, false)
    }
}

/// What is drawn for a key: the text that it types or, without one, its label, with a plus sign
/// where it is held for the next key.
pub open spec fn shown_text(name: Seq<char>, utf8: Seq<char>) -> Seq<char> {
    if utf8.len() > 0 {
        utf8
    } else if label_of(name).1 {
        label_of(name).0 + "+"@
    } else {
        label_of(name).0
    }
}

/// What a key types, as far as it can be shown: nothing where one of the characters is a space or
/// a control character.
pub open spec fn printable(utf8: Seq<char>) -> Seq<char> {
    if forall|i: int| 0 <= i < utf8.len() ==> utf8[i] > ' ' {
        utf8
    } else {
        Seq::empty()
    }
}

/// What a key types, as far as it can be shown.
pub fn printable_text(utf8: String) -> (r: String)
    ensures
        r@ == printable(utf8@),
        (forall|i: int| 0 <= i < utf8@.len() ==> utf8@[i] > ' ') ==> r@ == utf8@,
        (exists|i: int| 0 <= i < utf8@.len() && utf8@[i] <= ' ') ==> r@.len() == 0,
{
    let chars: Vec<char> = chars_of(utf8.as_str());
    let mut i: usize = 0;
    while i < chars.len()
        invariant
            i <= chars.len(),
            chars@ == utf8@,
            forall|j: int| 0 <= j < i ==> chars@[j] > ' ',
        decreases chars.len() - i,
    {
        if chars[i] <= ' ' {
            assert(!(utf8@[i as int] > ' '));
            return String::new();
        }
        i += 1;
    }
    utf8
}

impl Keypress {
    /// A press of the key whose symbol has this name and that types this text.
    pub fn new(name: String, utf8: String) -> (r: Self)
        ensures
            r.name@ == name@,
            r.utf8@ == printable(utf8@),
            (forall|i: int| 0 <= i < utf8@.len() ==> utf8@[i] > ' ') ==> r.utf8@ == utf8@,
            (exists|i: int| 0 <= i < utf8@.len() && utf8@[i] <= ' ') ==> r.utf8@.len() == 0,
    {
        Keypress { name, utf8: printable_text(utf8) }
    }

    /// What is drawn for the key.
    pub open spec fn shown(self) -> Seq<char> {
        shown_text(self.name@, self.utf8@)
    }

    /// What is drawn for the key.
    pub fn text(&self) -> (r: String)
        ensures
            r@ == self.shown(),
            self.utf8@.len() > 0 ==> r@ == self.utf8@,
            self.utf8@.len() == 0 ==> r@ == (if label_of(self.name@).1 {
                label_of(self.name@).0 + "+"@
            } else {
                label_of(self.name@).0
            }),
    {
        if self.utf8.as_str().is_empty() {
            let (label, held) = key_label(self.name.as_str());
            let mut text: String = label.to_owned();
            if held {
                text.append("+");
            }
            text
        } else {
            self.utf8.clone()
        }
    }
}

/// A key that types text is shown by that text and nothing else, whatever its name.
pub proof fn text_is_shown(name: Seq<char>, utf8: Seq<char>)
    requires
        utf8.len() > 0,
        forall|i: int| 0 <= i < utf8.len() ==> utf8[i] > ' ',
    ensures
        shown_text(name, printable(utf8)) == utf8,
{
}

/// A key is never shown as nothing, unless it has neither text nor a name.
pub proof fn something_is_shown(name: Seq<char>, utf8: Seq<char>)
    requires
        name.len() > 0 || utf8.len() > 0,
    ensures
        shown_text(name, utf8).len() > 0,
{
    labels_are_not_empty(name);
}

/// No label is empty, unless the name is.
proof fn labels_are_not_empty(name: Seq<char>)
    ensures
        name.len() > 0 ==> label_of(name).0.len() > 0,
{
    reveal_strlit("⏎");
    reveal_strlit("⇥");
    reveal_strlit("⇤");
    reveal_strlit("␣");
    reveal_strlit("<Ctrl>");
    reveal_strlit("<Alt>");
    reveal_strlit("<AltGr>");
    reveal_strlit("<Shift>");
    reveal_strlit("<Super>");
    reveal_strlit("⇪");
    reveal_strlit("Esc");
    reveal_strlit("Del");
    reveal_strlit("Ins");
    reveal_strlit("PgUp");
    reveal_strlit("PgDn");
    reveal_strlit("↑");
    reveal_strlit("↓");
    reveal_strlit("←");
    reveal_strlit("→");
    reveal_strlit("^");
    reveal_strlit("~");
    reveal_strlit("`");
    reveal_strlit("´");
    reveal_strlit("¨");
}

/// A text with a space or a control character in it is not shown at all: the key is shown as if it
/// typed nothing.
pub proof fn control_text_is_dropped(name: Seq<char>, utf8: Seq<char>, i: int)
    requires
        0 <= i < utf8.len(),
        utf8[i] <= ' ',
    ensures
        printable(utf8).len() == 0,
        shown_text(name, printable(utf8)) == shown_text(name, Seq::empty()),
{
    assert(!(utf8[i] > ' '));
}

/// What is kept of a text is the whole text or nothing.
pub proof fn text_is_kept_whole(utf8: Seq<char>)
    ensures
        printable(utf8) == utf8 || printable(utf8).len() == 0,
        printable(printable(utf8)) == printable(utf8),
        forall|i: int| 0 <= i < printable(utf8).len() ==> printable(utf8)[i] > ' ',
{
}

/// Whether a key has a label of its own.
pub open spec fn has_label(name: Seq<char>) -> bool {
    ||| name == "Return"@
    ||| name == "Tab"@
    ||| name == "ISO_Left_Tab"@
    ||| name == "BackSpace"@
    ||| name == "space"@
    ||| name == "Control_L"@
    ||| name == "Control_R"@
    ||| name == "Alt_L"@
    ||| name == "Alt_R"@
    ||| name == "Meta_L"@
    ||| name == "Meta_R"@
    ||| name == "ISO_Level3_Shift"@
    ||| name == "Shift_L"@
    ||| name == "Shift_R"@
    ||| name == "Super_L"@
    ||| name == "Super_R"@
    ||| name == "Caps_Lock"@
    ||| name == "Escape"@
    ||| name == "\u{07F0}"@
    ||| name == "Insert"@
    ||| name == "Prior"@
    ||| name == "Next"@
    ||| name == "Up"@
    ||| name == "Down"@
    ||| name == "Left"@
    ||| name == "Right"@
    ||| name == "dead_circumflex"@
    ||| name == "dead_tilde"@
    ||| name == "dead_grave"@
    ||| name == "dead_acute"@
    ||| name == "dead_diaeresis"@
}

/// What tells the names of the keys with labels apart.
proof fn label_names()
    ensures
        "Return"@.len() == 6 && "Return"@[0] == 'R',
        "Tab"@.len() == 3,
        "ISO_Left_Tab"@.len() == 12,
        "BackSpace"@.len() == 9 && "BackSpace"@[0] == 'B',
        "space"@.len() == 5 && "space"@[0] == 's',
        "Control_L"@.len() == 9 && "Control_L"@[0] == 'C' && "Control_L"@[1] == 'o' && "Control_L"@[8] == 'L',
        "Control_R"@.len() == 9 && "Control_R"@[0] == 'C' && "Control_R"@[1] == 'o' && "Control_R"@[8] == 'R',
        "Alt_L"@.len() == 5 && "Alt_L"@[0] == 'A' && "Alt_L"@[4] == 'L',
        "Alt_R"@.len() == 5 && "Alt_R"@[0] == 'A' && "Alt_R"@[4] == 'R',
        "Meta_L"@.len() == 6 && "Meta_L"@[0] == 'M' && "Meta_L"@[5] == 'L',
        "Meta_R"@.len() == 6 && "Meta_R"@[0] == 'M' && "Meta_R"@[5] == 'R',
        "ISO_Level3_Shift"@.len() == 16,
        "Shift_L"@.len() == 7 && "Shift_L"@[1] == 'h' && "Shift_L"@[6] == 'L',
        "Shift_R"@.len() == 7 && "Shift_R"@[1] == 'h' && "Shift_R"@[6] == 'R',
        "Super_L"@.len() == 7 && "Super_L"@[1] == 'u' && "Super_L"@[6] == 'L',
        "Super_R"@.len() == 7 && "Super_R"@[1] == 'u' && "Super_R"@[6] == 'R',
        "Caps_Lock"@.len() == 9 && "Caps_Lock"@[0] == 'C' && "Caps_Lock"@[1] == 'a',
        "Escape"@.len() == 6 && "Escape"@[0] == 'E',
        "\u{07F0}"@.len() == 1,
        "Insert"@.len() == 6 && "Insert"@[0] == 'I',
        "Prior"@.len() == 5 && "Prior"@[0] == 'P',
        "Next"@.len() == 4 && "Next"@[0] == 'N',
        "Up"@.len() == 2,
        "Down"@.len() == 4 && "Down"@[0] == 'D',
        "Left"@.len() == 4 && "Left"@[0] == 'L',
        "Right"@.len() == 5 && "Right"@[0] == 'R',
        "dead_circumflex"@.len() == 15,
        "dead_tilde"@.len() == 10 && "dead_tilde"@[5] == 't',
        "dead_grave"@.len() == 10 && "dead_grave"@[5] == 'g',
        "dead_acute"@.len() == 10 && "dead_acute"@[5] == 'a',
        "dead_diaeresis"@.len() == 14,
{
    reveal_strlit("Return");
    reveal_strlit("Tab");
    reveal_strlit("ISO_Left_Tab");
    reveal_strlit("BackSpace");
    reveal_strlit("space");
    reveal_strlit("Control_L");
    reveal_strlit("Control_R");
    reveal_strlit("Alt_L");
    reveal_strlit("Alt_R");
    reveal_strlit("Meta_L");
    reveal_strlit("Meta_R");
    reveal_strlit("ISO_Level3_Shift");
    reveal_strlit("Shift_L");
    reveal_strlit("Shift_R");
    reveal_strlit("Super_L");
    reveal_strlit("Super_R");
    reveal_strlit("Caps_Lock");
    reveal_strlit("Escape");
    reveal_strlit("\u{07F0}");
    reveal_strlit("Insert");
    reveal_strlit("Prior");
    reveal_strlit("Next");
    reveal_strlit("Up");
    reveal_strlit("Down");
    reveal_strlit("Left");
    reveal_strlit("Right");
    reveal_strlit("dead_circumflex");
    reveal_strlit("dead_tilde");
    reveal_strlit("dead_grave");
    reveal_strlit("dead_acute");
    reveal_strlit("dead_diaeresis");
}

/// Every key with a label is shown by that label, and the keys that are held for the next one have
/// a plus sign behind it.
pub proof fn special_keys_show_their_labels(name: Seq<char>)
    ensures
        name == "Return"@ ==> shown_text(name, Seq::empty()) == "⏎"@,
        name == "Tab"@ || name == "ISO_Left_Tab"@ ==> shown_text(name, Seq::empty()) == "⇥"@,
        name == "BackSpace"@ ==> shown_text(name, Seq::empty()) == "⇤"@,
        name == "space"@ ==> shown_text(name, Seq::empty()) == "␣"@,
        name == "Caps_Lock"@ ==> shown_text(name, Seq::empty()) == "⇪"@,
        name == "Escape"@ ==> shown_text(name, Seq::empty()) == "Esc"@,
        name == "\u{07F0}"@ ==> shown_text(name, Seq::empty()) == "Del"@,
        name == "Insert"@ ==> shown_text(name, Seq::empty()) == "Ins"@,
        name == "Prior"@ ==> shown_text(name, Seq::empty()) == "PgUp"@,
        name == "Next"@ ==> shown_text(name, Seq::empty()) == "PgDn"@,
        name == "Up"@ ==> shown_text(name, Seq::empty()) == "↑"@,
        name == "Down"@ ==> shown_text(name, Seq::empty()) == "↓"@,
        name == "Left"@ ==> shown_text(name, Seq::empty()) == "←"@,
        name == "Right"@ ==> shown_text(name, Seq::empty()) == "→"@,
        name == "Control_L"@ || name == "Control_R"@ ==> shown_text(name, Seq::empty()) == "<Ctrl>"@ + "+"@,
        name == "Alt_L"@ || name == "Alt_R"@ || name == "Meta_L"@ || name == "Meta_R"@ ==> shown_text(name, Seq::empty()) == "<Alt>"@ + "+"@,
        name == "ISO_Level3_Shift"@ ==> shown_text(name, Seq::empty()) == "<AltGr>"@ + "+"@,
        name == "Shift_L"@ || name == "Shift_R"@ ==> shown_text(name, Seq::empty()) == "<Shift>"@ + "+"@,
        name == "Super_L"@ || name == "Super_R"@ ==> shown_text(name, Seq::empty()) == "<Super>"@ + "+"@,
        name == "dead_circumflex"@ ==> shown_text(name, Seq::empty()) == "^"@ + "+"@,
        name == "dead_tilde"@ ==> shown_text(name, Seq::empty()) == "~"@ + "+"@,
        name == "dead_grave"@ ==> shown_text(name, Seq::empty()) == "`"@ + "+"@,
        name == "dead_acute"@ ==> shown_text(name, Seq::empty()) == "´"@ + "+"@,
        name == "dead_diaeresis"@ ==> shown_text(name, Seq::empty()) == "¨"@ + "+"@,
{
    label_names();
}

/// Every other key is shown by its name alone, and is not held.
pub proof fn other_keys_show_their_names(name: Seq<char>)
    requires
        !has_label(name),
    ensures
        label_of(name) == (name, false),
        shown_text(name, Seq::empty()) == name,
{
}

} // verus!
