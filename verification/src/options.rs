//! The command line.

use crate::color::{
    color_is_what_is_written, color_of, color_warning, color_warning_of, is_written_with,
    parse_color,
};
use crate::number::{
    decimal_is_read_back, decimal_text, number_in, parse_i32, parse_i64, parse_u32,
};
use crate::state::AppState;
use crate::text::same_text;
use vstd::prelude::*;
use wayland_protocols_wlr::layer_shell::v1::client::zwlr_layer_surface_v1::Anchor;

verus! {

/// The bit of each edge in an anchor.
struct EdgeBits {
    top: u32,
    bottom: u32,
    left: u32,
    right: u32,
}

/// Calls `Anchor::bits` of `wayland_protocols_wlr` on the four edges: the layer shell protocol
/// gives the bit 1 to the top, 2 to the bottom, 4 to the left and 8 to the right.
#[verifier::external_body]
fn edge_bits() -> (r: EdgeBits)
    ensures
        r.top == 1,
        r.bottom == 2,
        r.left == 4,
        r.right == 8,
{
    EdgeBits {
        top: Anchor::Top.bits(),
        bottom: Anchor::Bottom.bits(),
        left: Anchor::Left.bits(),
        right: Anchor::Right.bits(),
    }
}

/// The bit of the edge with this name; none for another name.
pub open spec fn edge_bit(name: Seq<char>) -> u32 {
    if name == "top"@ {
        1
    } else if name == "left"@ {
        4
    } else if name == "right"@ {
        8
    } else if name == "bottom"@ {
        2
    } else {
        0
    }
}

/// The bit of the edge with this name; none for another name.
pub fn anchor_edge(name: &str) -> (r: u32)
    ensures
        r == edge_bit(name@),
{
    let bits = edge_bits();
    if same_text(name, "top") {
        bits.top
    } else if same_text(name, "left") {
        bits.left
    } else if same_text(name, "right") {
        bits.right
    } else if same_text(name, "bottom") {
        bits.bottom
    } else {
        0
    }
}

/// What the command line sets.
#[verifier::ext_equal]
pub struct Settings {
    pub foreground: int,
    pub background: int,
    pub specialfg: int,
    pub font: Seq<char>,
    pub timeout: int,
    pub anchor: u32,
    pub margin: int,
    pub padding: int,
    pub output_name: Option<Seq<char>>,
    /// What was said of colors that could not be read.
    pub warnings: Seq<Seq<char>>,
}

/// The characters of each string.
pub open spec fn texts(strings: Seq<String>) -> Seq<Seq<char>> {
    strings.map_values(|s: String| s@)
}

/// A number, or the one that stands for it where it cannot be read.
pub open spec fn number_or(number: Option<int>, default: int) -> int {
    match number {
        Some(value) => value,
        None => default,
    }
}

/// The warnings after this color was read.
pub open spec fn warned(warnings: Seq<Seq<char>>, color: Seq<char>) -> Seq<Seq<char>> {
    match color_warning_of(color) {
        Some(text) => warnings.push(text),
        None => warnings,
    }
}

/// Whether the option takes the argument that follows it.
pub open spec fn takes_value(option: Seq<char>) -> bool {
    ||| option == "-b"@
    ||| option == "-f"@
    ||| option == "-s"@
    ||| option == "-F"@
    ||| option == "-t"@
    ||| option == "-a"@
    ||| option == "-m"@
    ||| option == "-p"@
    ||| option == "-o"@
}

/// The settings after one option with its value.
pub open spec fn with_option(s: Settings, option: Seq<char>, value: Seq<char>) -> Settings {
    if option == "-b"@ {
        Settings { background: color_of(value), warnings: warned(s.warnings, value), ..s }
    } else if option == "-f"@ {
        Settings { foreground: color_of(value), warnings: warned(s.warnings, value), ..s }
    } else if option == "-s"@ {
        Settings { specialfg: color_of(value), warnings: warned(s.warnings, value), ..s }
    } else if option == "-F"@ {
        Settings { font: value, ..s }
    } else if option == "-t"@ {
        Settings {
            timeout: number_or(
                number_in(value, 10, true, i64::MIN as int, i64::MAX as int),
                1,
            ),
            ..s
        }
    } else if option == "-a"@ {
        Settings { anchor: s.anchor | edge_bit(value), ..s }
    } else if option == "-m"@ {
        Settings {
            margin: number_or(
                number_in(value, 10, true, i32::MIN as int, i32::MAX as int),
                32,
            ),
            ..s
        }
    } else if option == "-p"@ {
        Settings {
            padding: number_or(number_in(value, 10, false, 0, u32::MAX as int), 5),
            ..s
        }
    } else if option == "-o"@ {
        Settings { output_name: Some(value), ..s }
    } else {
        s
    }
}

/// Whether the argument asks for help.
pub open spec fn asks_for_help(arg: Seq<char>) -> bool {
    arg == "-h"@ || arg == "--help"@
}

/// The settings after the arguments from `i` on, and whether they ask for help. What follows the
/// request for help is not read; an option whose value is missing and an argument that is no
/// option change nothing.
pub open spec fn with_args(s: Settings, args: Seq<Seq<char>>, i: nat) -> (Settings, bool)
    decreases args.len() - i,
{
    if i >= args.len() {
        (s, false)
    } else if takes_value(args[i as int]) {
        if i + 1 < args.len() {
            with_args(with_option(s, args[i as int], args[i as int + 1]), args, i + 2)
        } else {
            (s, false)
        }
    } else if asks_for_help(args[i as int]) {
        (s, true)
    } else {
        with_args(s, args, i + 1)
    }
}

impl AppState {
    /// What the command line has set so far.
    pub open spec fn settings(self, warnings: Seq<String>) -> Settings {
        Settings {
            foreground: self.foreground as int,
            background: self.background as int,
            specialfg: self.specialfg as int,
            font: self.font@,
            timeout: self.timeout as int,
            anchor: self.anchor,
            margin: self.margin as int,
            padding: self.padding as int,
            output_name: match self.output_name {
                Some(name) => Some(name@),
                None => None,
            },
            warnings: texts(warnings),
        }
    }

    /// Whether nothing but what the command line sets differs between the two states.
    pub open spec fn differs_in_settings(self, before: AppState) -> bool {
        self == (AppState {
            foreground: self.foreground,
            background: self.background,
            specialfg: self.specialfg,
            font: self.font,
            timeout: self.timeout,
            anchor: self.anchor,
            margin: self.margin,
            padding: self.padding,
            output_name: self.output_name,
            ..before
        })
    }
}

/// Reads a color, and adds what is to be said of it to `warnings`.
fn read_color(value: &str, warnings: &mut Vec<String>) -> (r: u32)
    ensures
        r == color_of(value@),
        texts(final(warnings)@) == warned(texts(old(warnings)@), value@),
{
    if let Some(text) = color_warning(value) {
        warnings.push(text);
    }
    assert(texts(warnings@) =~= warned(texts(old(warnings)@), value@));
    parse_color(value)
}

impl AppState {
    /// Takes one option with its value, and adds what is to be said of it to `warnings`.
    fn set_option(&mut self, option: &str, value: &str, warnings: &mut Vec<String>)
        ensures
            final(self).settings(final(warnings)@) == with_option(
                old(self).settings(old(warnings)@),
                option@,
                value@,
            ),
            final(self).differs_in_settings(*old(self)),
    {
        if same_text(option, "-b") {
            self.background = read_color(value, warnings);
        } else if same_text(option, "-f") {
            self.foreground = read_color(value, warnings);
        } else if same_text(option, "-s") {
            self.specialfg = read_color(value, warnings);
        } else if same_text(option, "-F") {
            self.font = value.to_owned();
        } else if same_text(option, "-t") {
            self.timeout = match parse_i64(value) {
                Some(timeout) => timeout,
                None => 1,
            };
        } else if same_text(option, "-a") {
            self.anchor = self.anchor | anchor_edge(value);
        } else if same_text(option, "-m") {
            self.margin = match parse_i32(value) {
                Some(margin) => margin,
                None => 32,
            };
        } else if same_text(option, "-p") {
            self.padding = match parse_u32(value, 10) {
                Some(padding) => padding,
                None => 5,
            };
        } else if same_text(option, "-o") {
            self.output_name = Some(value.to_owned());
        }
    }
}

/// Whether the option takes the argument that follows it.
fn has_value(option: &str) -> (r: bool)
    ensures
        r == takes_value(option@),
{
    same_text(option, "-b") || same_text(option, "-f") || same_text(option, "-s") || same_text(
        option,
        "-F",
    ) || same_text(option, "-t") || same_text(option, "-a") || same_text(option, "-m")
        || same_text(option, "-p") || same_text(option, "-o")
}

/// What came of the command line.
pub struct ParsedArgs {
    /// Whether it asks for help: the program says how it is used and ends.
    pub help: bool,
    /// What to say of colors that could not be read, in order.
    pub warnings: Vec<String>,
}

/// How the program is used.
pub fn usage() -> (r: &'static str)
    ensures
        r@
            == "usage: wl-showkeys [-b|-f|-s #RRGGBB[AA]] [-F font] [-t timeout]\n\t[-a top|left|right|bottom] [-m margin] [-p padding] [-o output]"@,
{
    "usage: wl-showkeys [-b|-f|-s #RRGGBB[AA]] [-F font] [-t timeout]\n\t[-a top|left|right|bottom] [-m margin] [-p padding] [-o output]"
}

impl AppState {
    /// Reads the command line, of which the first argument is the program's name.
    pub fn parse_args(&mut self, args: &Vec<String>) -> (r: ParsedArgs)
        ensures
            (final(self).settings(r.warnings@), r.help) == with_args(
                old(self).settings(Seq::empty()),
                texts(args@),
                1,
            ),
            final(self).differs_in_settings(*old(self)),
            old(self).wf() ==> final(self).wf(),
            final(self).run == old(self).run && final(self).keys == old(self).keys && final(self).last_key == old(self).last_key,
            final(self).width == old(self).width && final(self).height == old(self).height,
            final(self).buffers == old(self).buffers && final(self).outputs == old(self).outputs
                && final(self).current_output == old(self).current_output,
            final(self).surface == old(self).surface && final(self).layer_surface == old(self).layer_surface && final(self).frame_scheduled == old(self).frame_scheduled && final(self).dirty == old(self).dirty,
            final(self).xkb_context == old(self).xkb_context && final(self).xkb_state == old(self).xkb_state,
            args@.len() <= 1 ==> !r.help && r.warnings@.len() == 0,
            forall|d: Seq<int>|
                #![trigger is_written_with(args@[2]@, d)]
                args@.len() == 3 && args@[1]@ == "-f"@ && is_written_with(args@[2]@, d) && d.len()
                    == 8 ==> final(self).foreground == (d[0] * 16 + d[1]) * 0x100_0000 + (d[2] * 16
                    + d[3]) * 0x1_0000 + (d[4] * 16 + d[5]) * 0x100 + (d[6] * 16 + d[7]),
            forall|d: Seq<int>|
                #![trigger is_written_with(args@[2]@, d)]
                args@.len() == 3 && args@[1]@ == "-f"@ && is_written_with(args@[2]@, d) && d.len()
                    == 6 ==> final(self).foreground == (d[0] * 16 + d[1]) * 0x100_0000 + (d[2] * 16
                    + d[3]) * 0x1_0000 + (d[4] * 16 + d[5]) * 0x100 + 0xff,
            forall|d: Seq<int>|
                #![trigger is_written_with(args@[2]@, d)]
                args@.len() == 3 && args@[1]@ == "-b"@ && is_written_with(args@[2]@, d) && d.len()
                    == 8 ==> final(self).background == (d[0] * 16 + d[1]) * 0x100_0000 + (d[2] * 16
                    + d[3]) * 0x1_0000 + (d[4] * 16 + d[5]) * 0x100 + (d[6] * 16 + d[7]),
            forall|d: Seq<int>|
                #![trigger is_written_with(args@[2]@, d)]
                args@.len() == 3 && args@[1]@ == "-b"@ && is_written_with(args@[2]@, d) && d.len()
                    == 6 ==> final(self).background == (d[0] * 16 + d[1]) * 0x100_0000 + (d[2] * 16
                    + d[3]) * 0x1_0000 + (d[4] * 16 + d[5]) * 0x100 + 0xff,
            forall|d: Seq<int>|
                #![trigger is_written_with(args@[2]@, d)]
                args@.len() == 3 && args@[1]@ == "-s"@ && is_written_with(args@[2]@, d) && d.len()
                    == 8 ==> final(self).specialfg == (d[0] * 16 + d[1]) * 0x100_0000 + (d[2] * 16
                    + d[3]) * 0x1_0000 + (d[4] * 16 + d[5]) * 0x100 + (d[6] * 16 + d[7]),
            forall|d: Seq<int>|
                #![trigger is_written_with(args@[2]@, d)]
                args@.len() == 3 && args@[1]@ == "-s"@ && is_written_with(args@[2]@, d) && d.len()
                    == 6 ==> final(self).specialfg == (d[0] * 16 + d[1]) * 0x100_0000 + (d[2] * 16
                    + d[3]) * 0x1_0000 + (d[4] * 16 + d[5]) * 0x100 + 0xff,
            args@.len() == 3 && args@[1]@ == "-F"@ ==> final(self).font@ == args@[2]@,
            args@.len() == 3 && args@[1]@ == "-o"@ ==> (final(self).output_name matches Some(name)
                && name@ == args@[2]@),
            forall|n: int|
                #![trigger decimal_text(n)]
                args@.len() == 3 && args@[1]@ == "-t"@ && args@[2]@ == decimal_text(n) && i64::MIN
                    <= n <= i64::MAX ==> final(self).timeout == n,
            forall|n: int|
                #![trigger decimal_text(n)]
                args@.len() == 3 && args@[1]@ == "-m"@ && args@[2]@ == decimal_text(n) && i32::MIN
                    <= n <= i32::MAX ==> final(self).margin == n,
            args@.len() == 3 && args@[1]@ == "-a"@ && args@[2]@ == "top"@ ==> final(self).anchor
                == old(self).anchor | 1,
            args@.len() == 3 && args@[1]@ == "-a"@ && args@[2]@ == "bottom"@ ==> final(self).anchor
                == old(self).anchor | 2,
            args@.len() == 3 && args@[1]@ == "-a"@ && args@[2]@ == "left"@ ==> final(self).anchor
                == old(self).anchor | 4,
            args@.len() == 3 && args@[1]@ == "-a"@ && args@[2]@ == "right"@ ==> final(self).anchor
                == old(self).anchor | 8,
            args@.len() == 2 && (args@[1]@ == "-h"@ || args@[1]@ == "--help"@) ==> r.help,
    {
        let r = self.read_args(args);
        proof {
            let s = old(self).settings(Seq::empty());
            let all = texts(args@);
            if args@.len() == 3 {
                let (program, option, text) = (args@[0]@, args@[1]@, args@[2]@);
                assert(all =~= seq![program, option, text]);
                text_options_set_their_text(s, program, text);
                number_options_set_their_number(s, program, text);
                anchor_option_adds_its_edge(s, program, text);
                assert forall|d: Seq<int>|
                    #![trigger is_written_with(text, d)]
                    is_written_with(text, d) && (d.len() == 6 || d.len() == 8) implies with_args(
                    s,
                    seq![program, "-f"@, text],
                    1,
                ).0.foreground == (d[0] * 16 + d[1]) * 0x100_0000 + (d[2] * 16 + d[3]) * 0x1_0000
                    + (d[4] * 16 + d[5]) * 0x100 + (if d.len() == 8 {
                    d[6] * 16 + d[7]
                } else {
                    0xff
                }) && with_args(s, seq![program, "-b"@, text], 1).0.background == with_args(
                    s,
                    seq![program, "-f"@, text],
                    1,
                ).0.foreground && with_args(s, seq![program, "-s"@, text], 1).0.specialfg
                    == with_args(s, seq![program, "-f"@, text], 1).0.foreground by {
                    color_options_set_what_is_written(s, program, text, d);
                }
            }
            assert(texts(r.warnings@).len() == r.warnings@.len());
            if args@.len() <= 1 {
                assert(all.len() == args@.len());
                assert(with_args(s, all, 1) == (s, false));
                assert(s.warnings.len() == 0);
                assert(self.settings(r.warnings@).warnings.len() == 0);
            }
            if args@.len() == 2 {
                assert(all =~= seq![args@[0]@, args@[1]@] + Seq::empty());
                other_arguments_change_nothing(s, args@[0]@, args@[1]@, Seq::empty());
            }
        }
        r
    }

    /// Reads the command line, of which the first argument is the program's name.
    fn read_args(&mut self, args: &Vec<String>) -> (r: ParsedArgs)
        ensures
            (final(self).settings(r.warnings@), r.help) == with_args(
                old(self).settings(Seq::empty()),
                texts(args@),
                1,
            ),
            final(self).differs_in_settings(*old(self)),
            old(self).wf() ==> final(self).wf(),
    {
        let mut warnings: Vec<String> = Vec::new();
        let mut i: usize = 1;
        assert(warnings@ =~= Seq::empty());
        while i < args.len()
            invariant
                1 <= i,
                with_args(self.settings(warnings@), texts(args@), i as nat) == with_args(
                    old(self).settings(Seq::empty()),
                    texts(args@),
                    1,
                ),
                self.differs_in_settings(*old(self)),
                old(self).wf() ==> self.wf(),
            decreases args.len() - i,
        {
            let arg: &str = args[i].as_str();
            assert(texts(args@)[i as int] == arg@);
            if has_value(arg) {
                i += 1;
                if i == args.len() {
                    return ParsedArgs { help: false, warnings };
                }
                assert(texts(args@)[i as int] == args@[i as int]@);
                let ghost before = self.anchor;
                self.set_option(arg, args[i].as_str(), &mut warnings);
                proof {
                    anchors_are_edges(before, edge_bit(args@[i as int]@));
                }
                i += 1;
            } else {
                if same_text(arg, "-h") || same_text(arg, "--help") {
                    return ParsedArgs { help: true, warnings };
                }
                i += 1;
            }
        }
        ParsedArgs { help: false, warnings }
    }
}

/// An anchor that holds nothing but edges still does with one more edge.
proof fn anchors_are_edges(anchor: u32, edge: u32)
    requires
        edge < 16,
    ensures
        anchor < 16 ==> anchor | edge < 16,
{
    assert(anchor < 16 && edge < 16 ==> anchor | edge < 16) by (bit_vector);
}

/// No two options are the same.
proof fn options_differ()
    ensures
        "-b"@[1] == 'b' && "-f"@[1] == 'f' && "-s"@[1] == 's' && "-F"@[1] == 'F',
        "-t"@[1] == 't' && "-a"@[1] == 'a' && "-m"@[1] == 'm' && "-p"@[1] == 'p',
        "-o"@[1] == 'o',
{
    reveal_strlit("-b");
    reveal_strlit("-f");
    reveal_strlit("-s");
    reveal_strlit("-F");
    reveal_strlit("-t");
    reveal_strlit("-a");
    reveal_strlit("-m");
    reveal_strlit("-p");
    reveal_strlit("-o");
}

/// The edges that are named one after the other are all anchored, in whatever order they come and
/// however often.
pub proof fn anchors_add_up(s: Settings, first: Seq<char>, second: Seq<char>)
    ensures
        with_option(with_option(s, "-a"@, first), "-a"@, second) == (Settings {
            anchor: s.anchor | edge_bit(first) | edge_bit(second),
            ..s
        }),
        with_option(with_option(s, "-a"@, first), "-a"@, second) == with_option(
            with_option(s, "-a"@, second),
            "-a"@,
            first,
        ),
        with_option(with_option(s, "-a"@, first), "-a"@, first) == with_option(s, "-a"@, first),
{
    options_differ();
    let a = s.anchor;
    let x = edge_bit(first);
    let y = edge_bit(second);
    assert((a | x) | y == (a | y) | x) by (bit_vector);
    assert((a | x) | x == a | x) by (bit_vector);
}

/// Of every option but the anchor, the last value counts.
pub proof fn last_value_counts(s: Settings, option: Seq<char>, first: Seq<char>, second: Seq<char>)
    requires
        option != "-a"@,
    ensures
        with_option(with_option(s, option, first), option, second) == (Settings {
            warnings: with_option(with_option(s, option, first), option, second).warnings,
            ..with_option(s, option, second)
        }),
{
    options_differ();
}

/// Arguments that are no options, and ask for no help, change nothing.
pub proof fn other_arguments_are_ignored(s: Settings, args: Seq<Seq<char>>, i: nat)
    requires
        forall|j: int|
            i <= j < args.len() ==> !takes_value(#[trigger] args[j]) && !asks_for_help(args[j]),
    ensures
        with_args(s, args, i) == (s, false),
    decreases args.len() - i,
{
    if i < args.len() {
        other_arguments_are_ignored(s, args, i + 1);
    }
}

/// What tells the names of the options apart.
proof fn option_names()
    ensures
        "-b"@ == seq!['-', 'b'] && "-f"@ == seq!['-', 'f'] && "-s"@ == seq!['-', 's'],
        "-F"@ == seq!['-', 'F'] && "-t"@ == seq!['-', 't'] && "-a"@ == seq!['-', 'a'],
        "-m"@ == seq!['-', 'm'] && "-p"@ == seq!['-', 'p'] && "-o"@ == seq!['-', 'o'],
        "-h"@ == seq!['-', 'h'],
        "--help"@ == seq!['-', '-', 'h', 'e', 'l', 'p'],
{
    options_differ();
    reveal_strlit("-b");
    reveal_strlit("-f");
    reveal_strlit("-s");
    reveal_strlit("-F");
    reveal_strlit("-t");
    reveal_strlit("-a");
    reveal_strlit("-m");
    reveal_strlit("-p");
    reveal_strlit("-o");
    reveal_strlit("-h");
    reveal_strlit("--help");
    assert("-b"@ =~= seq!['-', 'b'] && "-f"@ =~= seq!['-', 'f'] && "-s"@ =~= seq!['-', 's']);
    assert("-F"@ =~= seq!['-', 'F'] && "-t"@ =~= seq!['-', 't'] && "-a"@ =~= seq!['-', 'a']);
    assert("-m"@ =~= seq!['-', 'm'] && "-p"@ =~= seq!['-', 'p'] && "-o"@ =~= seq!['-', 'o']);
    assert("-h"@ =~= seq!['-', 'h']);
    assert("--help"@ =~= seq!['-', '-', 'h', 'e', 'l', 'p']);
}

/// The options that take a value are a dash and one of nine letters; the two ways to ask for help
/// are not among them.
pub proof fn options_are_letters(c: char)
    ensures
        takes_value(seq!['-', c]) <==> c == 'b' || c == 'f' || c == 's' || c == 'F' || c == 't' || c
            == 'a' || c == 'm' || c == 'p' || c == 'o',
        forall|option: Seq<char>|
            #![trigger takes_value(option)]
            takes_value(option) ==> option.len() == 2 && option[0] == '-',
        asks_for_help(seq!['-', c]) <==> c == 'h',
        asks_for_help(seq!['-', '-', 'h', 'e', 'l', 'p']),
        forall|arg: Seq<char>|
            #![trigger asks_for_help(arg)]
            asks_for_help(arg) ==> !takes_value(arg) && (arg.len() == 2 || arg.len() == 6) && arg[0]
                == '-',
{
    option_names();
    let option = seq!['-', c];
    assert(option[1] == c);
    assert(seq!['-', 'b'][1] == 'b' && seq!['-', 'f'][1] == 'f' && seq!['-', 's'][1] == 's');
    assert(seq!['-', 'F'][1] == 'F' && seq!['-', 't'][1] == 't' && seq!['-', 'a'][1] == 'a');
    assert(seq!['-', 'm'][1] == 'm' && seq!['-', 'p'][1] == 'p' && seq!['-', 'o'][1] == 'o');
    assert(seq!['-', 'h'][1] == 'h');
    assert(option.len() == 2 && seq!['-', '-', 'h', 'e', 'l', 'p'].len() == 6);
}

/// What is read depends on nothing but the arguments that are left.
proof fn only_the_rest_counts(
    s: Settings,
    a: Seq<Seq<char>>,
    i: nat,
    b: Seq<Seq<char>>,
    j: nat,
)
    requires
        i <= a.len(),
        j <= b.len(),
        a.skip(i as int) == b.skip(j as int),
    ensures
        with_args(s, a, i) == with_args(s, b, j),
    decreases a.len() - i,
{
    let rest = a.skip(i as int);
    assert(rest.len() == a.len() - i && rest.len() == b.len() - j);
    if i < a.len() {
        assert(a[i as int] == rest[0] && b[j as int] == rest[0]);
        if takes_value(rest[0]) {
            if i + 1 < a.len() {
                assert(a[i as int + 1] == rest[1] && b[j as int + 1] == rest[1]);
                assert(a.skip(i as int + 2) =~= rest.skip(2));
                assert(b.skip(j as int + 2) =~= rest.skip(2));
                only_the_rest_counts(with_option(s, rest[0], rest[1]), a, i + 2, b, j + 2);
            }
        } else if !asks_for_help(rest[0]) {
            assert(a.skip(i as int + 1) =~= rest.skip(1));
            assert(b.skip(j as int + 1) =~= rest.skip(1));
            only_the_rest_counts(s, a, i + 1, b, j + 1);
        }
    }
}

/// A command line with one option is read as that option.
proof fn one_option(s: Settings, program: Seq<char>, option: Seq<char>, value: Seq<char>)
    requires
        takes_value(option),
    ensures
        with_args(s, seq![program, option, value], 1) == (with_option(s, option, value), false),
{
    let args = seq![program, option, value];
    assert(args[1] == option && args[2] == value && args.len() == 3);
    let after = with_option(s, option, value);
    assert(with_args(after, args, 3) == (after, false));
}

/// An option with its value is read first, and the rest of the command line after that.
pub proof fn options_are_read_in_order(
    s: Settings,
    program: Seq<char>,
    option: Seq<char>,
    value: Seq<char>,
    rest: Seq<Seq<char>>,
)
    requires
        takes_value(option),
    ensures
        with_args(s, seq![program, option, value] + rest, 1) == with_args(
            with_args(s, seq![program, option, value], 1).0,
            seq![program] + rest,
            1,
        ),
{
    one_option(s, program, option, value);
    let args = seq![program, option, value] + rest;
    assert(args[1] == option && args[2] == value);
    assert(args.skip(3) =~= rest);
    assert((seq![program] + rest).skip(1) =~= rest);
    only_the_rest_counts(with_option(s, option, value), args, 3, seq![program] + rest, 1);
}

/// An argument that is no option is passed over; help is asked for at the place where it stands;
/// and an option without a value, or no argument at all, changes nothing.
pub proof fn other_arguments_change_nothing(
    s: Settings,
    program: Seq<char>,
    arg: Seq<char>,
    rest: Seq<Seq<char>>,
)
    ensures
        with_args(s, seq![program], 1) == (s, false),
        with_args(s, Seq::empty(), 1) == (s, false),
        takes_value(arg) ==> with_args(s, seq![program, arg], 1) == (s, false),
        arg == "-h"@ || arg == "--help"@ ==> with_args(s, seq![program, arg] + rest, 1) == (s, true),
        !takes_value(arg) && arg != "-h"@ && arg != "--help"@ ==> with_args(
            s,
            seq![program, arg] + rest,
            1,
        ) == with_args(s, seq![program] + rest, 1),
{
    options_are_letters('h');
    let args = seq![program, arg] + rest;
    assert(args[1] == arg);
    assert(seq![program, arg][1] == arg && seq![program, arg].len() == 2);
    assert(args.skip(2) =~= rest);
    assert((seq![program] + rest).skip(1) =~= rest);
    only_the_rest_counts(s, args, 2, seq![program] + rest, 1);
}

/// Each of the three color options sets its color, and nothing else, to exactly what is written:
/// eight hexadecimal digits are red, green, blue and the opacity, two for each; six are a color of
/// full opacity.
pub proof fn color_options_set_what_is_written(
    s: Settings,
    program: Seq<char>,
    text: Seq<char>,
    d: Seq<int>,
)
    requires
        is_written_with(text, d),
        d.len() == 6 || d.len() == 8,
    ensures
        ({
            let color = (d[0] * 16 + d[1]) * 0x100_0000 + (d[2] * 16 + d[3]) * 0x1_0000
                + (d[4] * 16 + d[5]) * 0x100 + if d.len() == 8 {
                d[6] * 16 + d[7]
            } else {
                0xff
            };
            &&& with_args(s, seq![program, "-f"@, text], 1) == (
                Settings { foreground: color, ..s },
                false,
            )
            &&& with_args(s, seq![program, "-b"@, text], 1) == (
                Settings { background: color, ..s },
                false,
            )
            &&& with_args(s, seq![program, "-s"@, text], 1) == (
                Settings { specialfg: color, ..s },
                false,
            )
        }),
{
    options_differ();
    color_is_what_is_written(text, d);
    one_option(s, program, "-f"@, text);
    one_option(s, program, "-b"@, text);
    one_option(s, program, "-s"@, text);
}

/// A color of another length is reported, whichever option it is for.
pub proof fn unreadable_colors_are_reported(
    s: Settings,
    program: Seq<char>,
    text: Seq<char>,
    warning: Seq<char>,
)
    requires
        color_warning_of(text) == Some(warning),
    ensures
        with_args(s, seq![program, "-f"@, text], 1).0.warnings == s.warnings.push(warning),
        with_args(s, seq![program, "-b"@, text], 1).0.warnings == s.warnings.push(warning),
        with_args(s, seq![program, "-s"@, text], 1).0.warnings == s.warnings.push(warning),
        with_args(s, seq![program, "-f"@, text], 1).0.foreground == color_of(text),
        with_args(s, seq![program, "-b"@, text], 1).0.background == color_of(text),
        with_args(s, seq![program, "-s"@, text], 1).0.specialfg == color_of(text),
{
    options_differ();
    one_option(s, program, "-f"@, text);
    one_option(s, program, "-b"@, text);
    one_option(s, program, "-s"@, text);
}

/// The font and the output are taken as they are written.
pub proof fn text_options_set_their_text(s: Settings, program: Seq<char>, text: Seq<char>)
    ensures
        with_args(s, seq![program, "-F"@, text], 1) == (Settings { font: text, ..s }, false),
        with_args(s, seq![program, "-o"@, text], 1) == (
            Settings { output_name: Some(text), ..s },
            false,
        ),
{
    options_differ();
    one_option(s, program, "-F"@, text);
    one_option(s, program, "-o"@, text);
}

/// A number that an option takes is set as it is written; what is no number, or is out of range,
/// gives the default of a timeout of 1, a margin of 32 and a padding of 5.
pub proof fn number_options_set_their_number(s: Settings, program: Seq<char>, text: Seq<char>)
    ensures
        with_args(s, seq![program, "-t"@, text], 1) == (
            Settings {
                timeout: match number_in(text, 10, true, -0x8000_0000_0000_0000, 0x7fff_ffff_ffff_ffff) {
                    Some(n) => n,
                    None => 1,
                },
                ..s
            },
            false,
        ),
        with_args(s, seq![program, "-m"@, text], 1) == (
            Settings {
                margin: match number_in(text, 10, true, -0x8000_0000, 0x7fff_ffff) {
                    Some(n) => n,
                    None => 32,
                },
                ..s
            },
            false,
        ),
        with_args(s, seq![program, "-p"@, text], 1) == (
            Settings {
                padding: match number_in(text, 10, false, 0, 0xffff_ffff) {
                    Some(n) => n,
                    None => 5,
                },
                ..s
            },
            false,
        ),
        forall|n: int|
            text == #[trigger] decimal_text(n) && i64::MIN <= n <= i64::MAX ==> with_args(
                s,
                seq![program, "-t"@, text],
                1,
            ).0.timeout == n,
        forall|n: int|
            text == #[trigger] decimal_text(n) && i32::MIN <= n <= i32::MAX ==> with_args(
                s,
                seq![program, "-m"@, text],
                1,
            ).0.margin == n,
{
    options_differ();
    one_option(s, program, "-t"@, text);
    one_option(s, program, "-m"@, text);
    one_option(s, program, "-p"@, text);
    assert forall|n: int| text == #[trigger] decimal_text(n) && i64::MIN <= n <= i64::MAX implies
        with_args(s, seq![program, "-t"@, text], 1).0.timeout == n by {
        decimal_is_read_back(n, i64::MIN as int, i64::MAX as int);
    }
    assert forall|n: int| text == #[trigger] decimal_text(n) && i32::MIN <= n <= i32::MAX implies
        with_args(s, seq![program, "-m"@, text], 1).0.margin == n by {
        decimal_is_read_back(n, i32::MIN as int, i32::MAX as int);
    }
}

/// Each edge that is named is anchored, by the bit that the layer shell protocol gives it, and the
/// edges that were anchored before stay so. Any other name changes nothing.
pub proof fn anchor_option_adds_its_edge(s: Settings, program: Seq<char>, name: Seq<char>)
    ensures
        ({
            let after = with_args(s, seq![program, "-a"@, name], 1);
            &&& after == (Settings { anchor: after.0.anchor, ..s }, false)
            &&& name == "top"@ ==> after.0.anchor == s.anchor | 1
            &&& name == "bottom"@ ==> after.0.anchor == s.anchor | 2
            &&& name == "left"@ ==> after.0.anchor == s.anchor | 4
            &&& name == "right"@ ==> after.0.anchor == s.anchor | 8
            &&& name != "top"@ && name != "bottom"@ && name != "left"@ && name != "right"@
                ==> after.0.anchor == s.anchor
        }),
{
    options_differ();
    one_option(s, program, "-a"@, name);
    reveal_strlit("top");
    reveal_strlit("bottom");
    reveal_strlit("left");
    reveal_strlit("right");
    let anchor = s.anchor;
    assert(anchor | 0 == anchor) by (bit_vector);
}

} // verus!
