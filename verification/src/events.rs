//! What the compositor announces, and what the display makes of it.

use crate::pool::{after_release, release_buffer};
use crate::state::{AppState, Output, Subpixel};
use crate::text::{nul_terminated_text, same_text, text_before_nul};
use vstd::prelude::*;
use vstd::string::StringExecFns;
use vstd::utf8::encode_utf8;
use wayland_client::protocol::wl_seat::Capability;
use wayland_protocols_wlr::layer_shell::v1::client::zwlr_layer_shell_v1::Layer;
use wayland_protocols_wlr::layer_shell::v1::client::zwlr_layer_surface_v1::Anchor;

verus! {

/// The compositor's objects that the display uses.
#[derive(Debug, Clone, Copy, PartialEq, Eq, Structural)]
pub enum Global {
    Compositor,
    Shm,
    Seat,
    LayerShell,
    Output,
}

/// The object to bind, and the version of its interface.
#[derive(Debug, Clone, Copy, PartialEq, Eq)]
pub struct Bind {
    pub global: Global,
    pub version: u32,
    /// The place of an output among the outputs, by which it is known from now on.
    pub output: Option<usize>,
}

/// The object with this interface, if the display uses it.
pub open spec fn global_of(interface: Seq<char>) -> Option<Global> {
    if interface == "wl_compositor"@ {
        Some(Global::Compositor)
    } else if interface == "wl_shm"@ {
        Some(Global::Shm)
    } else if interface == "wl_seat"@ {
        Some(Global::Seat)
    } else if interface == "zwlr_layer_shell_v1"@ {
        Some(Global::LayerShell)
    } else if interface == "wl_output"@ {
        Some(Global::Output)
    } else {
        None
    }
}

/// The newest version of an interface that the display knows. The name of an output comes with the
/// fourth.
pub open spec fn newest_version(global: Global) -> u32 {
    match global {
        Global::Compositor => 4,
        Global::Shm => 1,
        Global::Seat => 5,
        Global::LayerShell => 1,
        Global::Output => 4,
    }
}

/// What to bind of an object with this interface, of which the compositor has this version, where
/// so many outputs are known already.
pub open spec fn bind_of(interface: Seq<char>, version: u32, outputs: nat) -> Option<Bind> {
    match global_of(interface) {
        Some(global) => Some(
            Bind {
                global,
                version: if version < newest_version(global) {
                    version
                } else {
                    newest_version(global)
                },
                output: if global == Global::Output {
                    Some(outputs as usize)
                } else {
                    None
                },
            },
        ),
        None => None,
    }
}

/// An output of which nothing is known yet.
pub open spec fn new_output() -> Output {
    Output { scale: 1, subpixel: Subpixel::Unknown, name: None }
}

impl AppState {
    /// Takes note of an object of the compositor, and says what to bind. Each output that is
    /// announced is a new one, behind the others.
    pub fn registry_event(&mut self, interface: &str, version: u32) -> (r: Option<Bind>)
        ensures
            r == bind_of(interface@, version, old(self).outputs@.len()),
            r matches Some(bind) ==> bind.version <= version,
            interface@ == "wl_compositor"@ ==> (r matches Some(bind) && bind.global
                == Global::Compositor && (version >= 4 ==> bind.version == 4) && (version < 4
                ==> bind.version == version)) && final(self).compositor,
            interface@ == "wl_shm"@ ==> (r matches Some(bind) && bind.global == Global::Shm && (
            version >= 1 ==> bind.version == 1)) && final(self).shm,
            interface@ == "wl_seat"@ ==> (r matches Some(bind) && bind.global == Global::Seat && (
            version >= 5 ==> bind.version == 5) && (version < 5 ==> bind.version == version))
                && final(self).seat,
            interface@ == "zwlr_layer_shell_v1"@ ==> (r matches Some(bind) && bind.global
                == Global::LayerShell && (version >= 1 ==> bind.version == 1)) && final(self).layer_shell,
            interface@ == "wl_output"@ ==> (r matches Some(bind) && bind.global == Global::Output && (
            version >= 4 ==> bind.version == 4) && (version < 4 ==> bind.version == version)
                && bind.output == Some(old(self).outputs@.len() as usize)),
            interface@ == "wl_output"@ ==> final(self).outputs@.len() == old(self).outputs@.len() + 1
                && final(self).outputs@.drop_last() == old(self).outputs@ && final(self).outputs@.last().scale == 1 && final(self).outputs@.last().subpixel
                == Subpixel::Unknown && final(self).outputs@.last().name is None,
            interface@ != "wl_output"@ ==> final(self).outputs == old(self).outputs,
            interface@ != "wl_compositor"@ && interface@ != "wl_shm"@ && interface@ != "wl_seat"@
                && interface@ != "zwlr_layer_shell_v1"@ && interface@ != "wl_output"@ ==> r is None
                && *final(self) == *old(self),
            match global_of(interface@) {
                None => *final(self) == *old(self),
                Some(Global::Compositor) => *final(self) == (AppState {
                    compositor: true,
                    ..*old(self)
                }),
                Some(Global::Shm) => *final(self) == (AppState { shm: true, ..*old(self) }),
                Some(Global::Seat) => *final(self) == (AppState { seat: true, ..*old(self) }),
                Some(Global::LayerShell) => *final(self) == (AppState {
                    layer_shell: true,
                    ..*old(self)
                }),
                Some(Global::Output) => *final(self) == (AppState {
                    outputs: final(self).outputs,
                    ..*old(self)
                }) && final(self).outputs@ == old(self).outputs@.push(new_output()),
            },
            old(self).wf() ==> final(self).wf(),
    {
        proof {
            interfaces_differ();
        }
        let place: usize = self.outputs.len();
        let (global, newest): (Global, u32) = if same_text(interface, "wl_compositor") {
            self.compositor = true;
            (Global::Compositor, 4)
        } else if same_text(interface, "wl_shm") {
            self.shm = true;
            (Global::Shm, 1)
        } else if same_text(interface, "wl_seat") {
            self.seat = true;
            (Global::Seat, 5)
        } else if same_text(interface, "zwlr_layer_shell_v1") {
            self.layer_shell = true;
            (Global::LayerShell, 1)
        } else if same_text(interface, "wl_output") {
            self.outputs.push(Output { scale: 1, subpixel: Subpixel::Unknown, name: None });
            (Global::Output, 4)
        } else {
            return None;
        };
        let version: u32 = if version < newest {
            version
        } else {
            newest
        };
        let output: Option<usize> = match global {
            Global::Output => Some(place),
            _ => None,
        };
        assert(self.outputs@.len() > old(self).outputs@.len() ==> self.outputs@.drop_last()
            =~= old(self).outputs@);
        Some(Bind { global, version, output })
    }

    /// Frees the buffer that the compositor released.
    pub fn buffer_released(&mut self, buffer: u64)
        ensures
            *final(self) == (AppState { buffers: final(self).buffers, ..*old(self) }),
            final(self).buffers@ == after_release(old(self).buffers@, buffer),
            old(self).buffers@[0].buffer == Some(buffer) ==> !final(self).buffers@[0].busy,
            old(self).buffers@[0].buffer != Some(buffer) ==> final(self).buffers@[0] == old(self).buffers@[0],
            old(self).buffers@[1].buffer != Some(buffer) ==> final(self).buffers@[1] == old(self).buffers@[1],
            old(self).buffers@[0].buffer != Some(buffer) && old(self).buffers@[1].buffer == Some(
                buffer,
            ) ==> !final(self).buffers@[1].busy,
            old(self).wf() ==> final(self).wf(),
    {
        release_buffer(&mut self.buffers, buffer);
    }
}

/// Calls `Capability::from_bits_retain` and `Capability::contains` of `wayland_client`: whether
/// the bit of a keyboard, which is 2, is among these bits.
#[verifier::external_body]
fn contains_keyboard(capabilities: u32) -> (r: bool)
    ensures
        r == (capabilities & 2 == 2),
{
    Capability::from_bits_retain(capabilities).contains(Capability::Keyboard)
}

/// Whether to ask a seat for its keyboard: it has one, and no capability that is unknown.
pub fn wants_keyboard(capabilities: Option<u32>) -> (r: bool)
    ensures
        r == (capabilities matches Some(bits) && bits & 2 == 2),
{
    match capabilities {
        Some(bits) => contains_keyboard(bits),
        None => false,
    }
}

/// How a keymap is written.
#[derive(Debug, Clone, Copy, PartialEq, Eq, Structural)]
pub enum KeymapFormat {
    NoKeymap,
    XkbV1,
}

/// Whether there is a keymap to read: one in the format that is known, and not an empty one.
pub fn wants_keymap(format: Option<KeymapFormat>, size: u32) -> (r: bool)
    ensures
        r == (format == Some(KeymapFormat::XkbV1) && size != 0),
{
    match format {
        Some(KeymapFormat::XkbV1) => size != 0,
        _ => false,
    }
}

impl AppState {
    /// The text of a keymap, without the NUL behind it and what follows that; `None` where it is
    /// not valid UTF-8, or where there is nothing to compile it with.
    pub fn keymap_text<'a>(&self, bytes: &'a [u8]) -> (r: Option<&'a str>)
        ensures
            !self.xkb_context ==> r is None,
            r matches Some(text) ==> {
                let n = encode_utf8(text@).len() as int;
                &&& n <= bytes@.len() && bytes@.take(n) == encode_utf8(text@)
                &&& !encode_utf8(text@).contains(0)
                &&& n < bytes@.len() ==> bytes@[n] == 0
            },
            match r {
                Some(text) => self.xkb_context && nul_terminated_text(bytes@) == Some(text@),
                None => !self.xkb_context || nul_terminated_text(bytes@) is None,
            },
    {
        match text_before_nul(bytes) {
            Some(text) => if self.xkb_context {
                Some(text)
            } else {
                None
            },
            None => None,
        }
    }

    /// Takes note of a keymap that was compiled, or of one that could not be: the old one then
    /// stays in use.
    pub fn keymap_compiled(&mut self, compiled: bool)
        ensures
            *final(self) == (AppState {
                xkb_state: old(self).xkb_state || compiled,
                ..*old(self)
            }),
            old(self).wf() ==> final(self).wf(),
    {
        if compiled {
            self.xkb_state = true;
        }
    }
}

/// What the compositor says of an output.
pub enum OutputEvent {
    /// How the colors of a pixel lie, if that is known.
    Geometry(Option<Subpixel>),
    Scale(i32),
    Name(String),
    Other,
}

/// An output after the compositor said this of it.
pub open spec fn updated_output(output: Output, event: OutputEvent) -> Output {
    match event {
        OutputEvent::Geometry(Some(subpixel)) => Output { subpixel, ..output },
        OutputEvent::Scale(scale) => Output { scale, ..output },
        OutputEvent::Name(name) => Output { name: Some(name), ..output },
        _ => output,
    }
}

/// Changes an output by what the compositor says of it.
fn update_output(output: &mut Output, event: OutputEvent)
    ensures
        *final(output) == updated_output(*old(output), event),
        event matches OutputEvent::Scale(scale) ==> *final(output) == (Output {
            scale,
            ..*old(output)
        }),
        event matches OutputEvent::Geometry(Some(subpixel)) ==> *final(output) == (Output {
            subpixel,
            ..*old(output)
        }),
        event matches OutputEvent::Name(name) ==> *final(output) == (Output {
            name: Some(name),
            ..*old(output)
        }),
        event is Other || event == OutputEvent::Geometry(None) ==> *final(output) == *old(output),
{
    match event {
        OutputEvent::Geometry(subpixel) => {
            if let Some(subpixel) = subpixel {
                output.subpixel = subpixel;
            }
        },
        OutputEvent::Scale(factor) => {
            output.scale = factor;
        },
        OutputEvent::Name(name) => {
            output.name = Some(name);
        },
        OutputEvent::Other => {},
    }
}

impl AppState {
    /// Takes note of what the compositor says of the output at this place: of that one alone.
    pub fn output_event(&mut self, place: usize, event: OutputEvent)
        ensures
            *final(self) == (AppState { outputs: final(self).outputs, ..*old(self) }),
            final(self).outputs@ == (if place < old(self).outputs@.len() {
                old(self).outputs@.update(
                    place as int,
                    updated_output(old(self).outputs@[place as int], event),
                )
            } else {
                old(self).outputs@
            }),
            final(self).outputs@.len() == old(self).outputs@.len(),
            forall|i: int|
                0 <= i < old(self).outputs@.len() && i != place ==> #[trigger] final(self).outputs@[i] == old(self).outputs@[i],
            place < old(self).outputs@.len() ==> {
                let before = old(self).outputs@[place as int];
                let after = final(self).outputs@[place as int];
                match event {
                    OutputEvent::Geometry(Some(subpixel)) => after == (Output {
                        subpixel,
                        ..before
                    }),
                    OutputEvent::Geometry(None) => after == before,
                    OutputEvent::Scale(scale) => after == (Output { scale, ..before }),
                    OutputEvent::Name(name) => after == (Output { name: Some(name), ..before }),
                    OutputEvent::Other => after == before,
                }
            },
            old(self).wf() ==> final(self).wf(),
    {
        if place < self.outputs.len() {
            update_output(&mut self.outputs[place], event);
        }
    }

    /// Takes note of the output that the surface is on now, by its place.
    pub fn surface_entered(&mut self, place: usize)
        ensures
            *final(self) == (AppState {
                current_output: if place < old(self).outputs@.len() {
                    Some(place)
                } else {
                    old(self).current_output
                },
                ..*old(self)
            }),
            old(self).wf() ==> final(self).wf(),
    {
        if place < self.outputs.len() {
            self.current_output = Some(place);
        }
    }

    /// Asks for a new frame, and says whether to draw it now: not while another is scheduled,
    /// which is followed by a new one then, and not without a surface.
    pub fn set_dirty(&mut self) -> (r: bool)
        ensures
            r == (!old(self).frame_scheduled && old(self).surface),
            *final(self) == (AppState {
                dirty: old(self).dirty || old(self).frame_scheduled,
                ..*old(self)
            }),
            old(self).wf() ==> final(self).wf(),
    {
        if self.frame_scheduled {
            self.dirty = true;
            false
        } else {
            self.surface
        }
    }
}

/// What the compositor says of the layer surface.
#[derive(Debug, Clone, Copy, PartialEq, Eq, Structural)]
pub enum LayerSurfaceEvent {
    /// The size that the surface is to have.
    Configure { serial: u32, width: u32, height: u32 },
    /// The surface is gone.
    Closed,
    Other,
}

/// What to answer the compositor: first that the size was seen, then a frame where one is to be
/// drawn now.
#[derive(Debug, Clone, Copy, PartialEq, Eq, Structural)]
pub struct Configured {
    /// The number of what is answered.
    pub serial: u32,
    /// Whether to draw a frame after that.
    pub render: bool,
}

impl AppState {
    /// Takes note of what the compositor says of the layer surface, and says what to answer.
    pub fn layer_surface_event(&mut self, event: LayerSurfaceEvent) -> (r: Option<Configured>)
        ensures
            match event {
                LayerSurfaceEvent::Configure { serial, width, height } => {
                    &&& r == Some(
                        Configured {
                            serial,
                            render: !old(self).frame_scheduled && old(self).surface,
                        },
                    )
                    &&& *final(self) == (AppState {
                        width,
                        height,
                        dirty: old(self).dirty || old(self).frame_scheduled,
                        ..*old(self)
                    })
                },
                LayerSurfaceEvent::Closed => r is None && *final(self) == (AppState {
                    run: false,
                    ..*old(self)
                }),
                LayerSurfaceEvent::Other => r is None && *final(self) == *old(self),
            },
            old(self).wf() ==> final(self).wf(),
    {
        match event {
            LayerSurfaceEvent::Configure { serial, width, height } => {
                self.width = width;
                self.height = height;
                let render = self.set_dirty();
                Some(Configured { serial, render })
            },
            LayerSurfaceEvent::Closed => {
                self.run = false;
                None
            },
            LayerSurfaceEvent::Other => None,
        }
    }
}

/// An object of the compositor that the display cannot do without.
#[derive(Debug, Clone, Copy, PartialEq, Eq, Structural)]
pub enum MissingGlobal {
    Compositor,
    Shm,
    LayerShell,
}

impl MissingGlobal {
    /// What is said of it.
    pub fn message(self) -> (r: &'static str)
        ensures
            r@ == (match self {
                MissingGlobal::Compositor => "wl_compositor not available"@,
                MissingGlobal::Shm => "wl_shm not available"@,
                MissingGlobal::LayerShell => "zwlr_layer_shell_v1 not available"@,
            }),
    {
        match self {
            MissingGlobal::Compositor => "wl_compositor not available",
            MissingGlobal::Shm => "wl_shm not available",
            MissingGlobal::LayerShell => "zwlr_layer_shell_v1 not available",
        }
    }
}

/// What is said where the compositor did not answer; `error` describes what went wrong.
pub fn roundtrip_error(error: &str) -> (r: String)
    ensures
        r@ == "Roundtrip error: "@ + error@,
{
    let mut text: String = "Roundtrip error: ".to_owned();
    text.append(error);
    text
}

/// Which output the surface is asked to be on.
#[derive(Debug, Clone, PartialEq, Eq)]
pub enum OutputChoice {
    /// None was asked for: the compositor decides.
    Any,
    /// The output at this place.
    At(usize),
    /// The one that was asked for is not there: the compositor decides, and the user is told this.
    NotFound { warning: String },
}

/// Whether the output has this name.
pub open spec fn is_named(output: Output, name: Seq<char>) -> bool {
    output.name matches Some(n) && n@ == name
}

/// What the user is told of an output that is not there.
pub open spec fn output_warning(name: Seq<char>) -> Seq<char> {
    "Warning: output '"@ + name + "' not found, using compositor default"@
}

/// Calls `Anchor::from_bits_truncate` and `Anchor::bits` of `wayland_protocols_wlr`: of these bits,
/// those of the four edges, which are 1, 2, 4 and 8.
#[verifier::external_body]
fn known_edges(anchor: u32) -> (r: u32)
    ensures
        r == anchor & 15,
{
    Anchor::from_bits_truncate(anchor).bits()
}

/// Converts `Layer::Top` of `wayland_protocols_wlr` to its number in the protocol, which is 2.
#[verifier::external_body]
fn top_layer() -> (r: u32)
    ensures
        r == 2,
{
    u32::from(Layer::Top)
}

/// How the layer surface is made and set up.
#[derive(Debug, Clone, Copy, PartialEq, Eq)]
pub struct LayerSettings {
    /// The number of the layer that the surface is on.
    pub layer: u32,
    /// What the surface is for.
    pub namespace: &'static str,
    pub width: u32,
    pub height: u32,
    pub anchor: u32,
    pub margin: i32,
    pub exclusive_zone: i32,
}

impl AppState {
    /// Whether the compositor has all that the display cannot do without; if not, what it lacks
    /// first.
    pub fn check_globals(&self) -> (r: Result<(), MissingGlobal>)
        ensures
            r == (if !self.compositor {
                Err::<(), MissingGlobal>(MissingGlobal::Compositor)
            } else if !self.shm {
                Err::<(), MissingGlobal>(MissingGlobal::Shm)
            } else if !self.layer_shell {
                Err::<(), MissingGlobal>(MissingGlobal::LayerShell)
            } else {
                Ok::<(), MissingGlobal>(())
            }),
    {
        if !self.compositor {
            return Err(MissingGlobal::Compositor);
        }
        if !self.shm {
            return Err(MissingGlobal::Shm);
        }
        if !self.layer_shell {
            return Err(MissingGlobal::LayerShell);
        }
        Ok(())
    }

    /// The output to ask for: the first one with the name that was given.
    pub fn choose_output(&self) -> (r: OutputChoice)
        ensures
            r is Any <==> self.output_name is None,
            r matches OutputChoice::At(i) ==> i < self.outputs@.len() && (self.output_name matches Some(
                wanted,
            ) && self.outputs@[i as int].name matches Some(name) && name@ == wanted@),
            r matches OutputChoice::At(i) ==> forall|j: int|
                0 <= j < i ==> ((#[trigger] self.outputs@[j]).name matches Some(name) ==> name@
                    != self.output_name->0@),
            r is NotFound ==> forall|j: int|
                0 <= j < self.outputs@.len() ==> ((#[trigger] self.outputs@[j]).name matches Some(
                    name,
                ) ==> name@ != self.output_name->0@),
            match self.output_name {
                None => r == OutputChoice::Any,
                Some(wanted) => match r {
                    OutputChoice::Any => false,
                    OutputChoice::At(i) => i < self.outputs@.len() && is_named(
                        self.outputs@[i as int],
                        wanted@,
                    ) && forall|j: int|
                        0 <= j < i ==> !is_named(#[trigger] self.outputs@[j], wanted@),
                    OutputChoice::NotFound { warning } => warning@ == output_warning(wanted@)
                        && warning@ == "Warning: output '"@ + wanted@
                        + "' not found, using compositor default"@
                        && forall|j: int|
                        0 <= j < self.outputs@.len() ==> !is_named(
                            #[trigger] self.outputs@[j],
                            wanted@,
                        ),
                },
            },
    {
        let wanted = match &self.output_name {
            Some(wanted) => wanted,
            None => {
                return OutputChoice::Any;
            },
        };
        let mut i: usize = 0;
        while i < self.outputs.len()
            invariant
                i <= self.outputs.len(),
                self.output_name == Some(*wanted),
                forall|j: int| 0 <= j < i ==> !is_named(#[trigger] self.outputs@[j], wanted@),
            decreases self.outputs.len() - i,
        {
            if let Some(name) = &self.outputs[i].name {
                if same_text(name.as_str(), wanted.as_str()) {
                    return OutputChoice::At(i);
                }
            }
            i += 1;
        }
        let mut warning: String = "Warning: output '".to_owned();
        warning.append(wanted.as_str());
        warning.append("' not found, using compositor default");
        OutputChoice::NotFound { warning }
    }

    /// Takes note of the surface and of its layer surface, and says how to make it and set it up:
    /// on the top layer, as small as can be until there is something to show, and over the space
    /// that others reserve.
    pub fn surface_created(&mut self) -> (r: LayerSettings)
        ensures
            *final(self) == (AppState { surface: true, layer_surface: true, ..*old(self) }),
            r.layer == 2,
            r.namespace@ == "showkeys"@,
            r.width == 1 && r.height == 1,
            r.anchor == old(self).anchor & 15,
            old(self).wf() ==> r.anchor == old(self).anchor,
            r.margin == old(self).margin,
            r.exclusive_zone == -1,
            old(self).wf() ==> final(self).wf(),
    {
        self.surface = true;
        self.layer_surface = true;
        let anchor: u32 = self.anchor;
        assert(anchor < 16 ==> anchor & 15 == anchor) by (bit_vector);
        LayerSettings {
            layer: top_layer(),
            namespace: "showkeys",
            width: 1,
            height: 1,
            anchor: known_edges(anchor),
            margin: self.margin,
            exclusive_zone: -1,
        }
    }
}

/// An object is never bound in a version that the compositor lacks, nor in one that the display
/// does not know.
pub proof fn bound_version_is_known(interface: Seq<char>, version: u32, outputs: nat)
    ensures
        bind_of(interface, version, outputs) matches Some(bind) ==> bind.version <= version && bind.version
            <= newest_version(bind.global),
{
}

/// Two outputs, of which one was announced after the other, are known by different places,
/// whatever the compositor calls them.
pub proof fn outputs_have_their_own_places(
    first: Seq<char>,
    first_version: u32,
    known: nat,
    second: Seq<char>,
    second_version: u32,
    known_later: nat,
)
    requires
        known < known_later <= usize::MAX,
    ensures
        match (
            bind_of(first, first_version, known),
            bind_of(second, second_version, known_later),
        ) {
            (Some(a), Some(b)) => a.global == Global::Output && b.global == Global::Output ==> {
                &&& a.output matches Some(place) && place == known
                &&& b.output matches Some(place) && place == known_later
            },
            _ => true,
        },
{
}

/// What tells the interfaces apart.
proof fn interfaces_differ()
    ensures
        "wl_compositor"@.len() == 13,
        "wl_shm"@.len() == 6,
        "wl_seat"@.len() == 7,
        "zwlr_layer_shell_v1"@.len() == 19,
        "wl_output"@.len() == 9,
{
    reveal_strlit("wl_compositor");
    reveal_strlit("wl_shm");
    reveal_strlit("wl_seat");
    reveal_strlit("zwlr_layer_shell_v1");
    reveal_strlit("wl_output");
}

/// Each object that the display uses is bound in the newest version that both sides know, and no
/// other object is bound.
pub proof fn objects_are_bound(interface: Seq<char>, version: u32, outputs: nat)
    ensures
        ({
            let bound = bind_of(interface, version, outputs);
            let at = |global: Global, newest: u32|
                bound matches Some(bind) && bind.global == global && (version >= newest
                    ==> bind.version == newest) && (version <= newest ==> bind.version == version);
            &&& interface == "wl_compositor"@ ==> at(Global::Compositor, 4)
            &&& interface == "wl_shm"@ ==> at(Global::Shm, 1)
            &&& interface == "wl_seat"@ ==> at(Global::Seat, 5)
            &&& interface == "zwlr_layer_shell_v1"@ ==> at(Global::LayerShell, 1)
            &&& interface == "wl_output"@ ==> at(Global::Output, 4)
            &&& interface != "wl_compositor"@ && interface != "wl_shm"@ && interface != "wl_seat"@
                && interface != "zwlr_layer_shell_v1"@ && interface != "wl_output"@
                ==> bound is None
            &&& bound matches Some(bind) ==> (bind.output is Some <==> interface == "wl_output"@)
        }),
        new_output().scale == 1 && new_output().name is None && new_output().subpixel
            == Subpixel::Unknown,
{
    interfaces_differ();
}

/// What the compositor says of an output changes what it speaks of, and nothing else of it.
pub proof fn output_changes_as_told(output: Output, subpixel: Subpixel, scale: i32, name: String)
    ensures
        updated_output(output, OutputEvent::Scale(scale)) == (Output { scale, ..output }),
        updated_output(output, OutputEvent::Geometry(Some(subpixel))) == (Output {
            subpixel,
            ..output
        }),
        updated_output(output, OutputEvent::Name(name)) == (Output { name: Some(name), ..output }),
        updated_output(output, OutputEvent::Geometry(None)) == output,
        updated_output(output, OutputEvent::Other) == output,
{
}

} // verus!
