//! Frames: where each key is drawn, how large the surface has to be, and when a buffer may be
//! handed to the compositor.

use crate::keys::Keypress;
use crate::pool::{as_signed, to_signed};
use crate::state::AppState;
use vstd::prelude::*;

verus! {

/// A signed number of 32 bits, taken as an unsigned one in two's complement.
pub open spec fn as_unsigned(n: int) -> int {
    if n >= 0 {
        n
    } else {
        n + 0x1_0000_0000
    }
}

/// The unsigned reading of 32 bits in two's complement.
fn to_unsigned(n: i32) -> (r: u32)
    ensures
        r == as_unsigned(n as int),
        r == n || r == n + 0x1_0000_0000,
{
    assert(n >= 0 ==> n as u32 == n) by (bit_vector);
    assert(n < 0 ==> n as u32 == n + 0x1_0000_0000) by (bit_vector);
    n as u32
}

/// How one key is drawn.
pub struct DrawKey {
    pub color: u32,
    /// Where it begins; its top is at zero.
    pub x: u32,
    pub text: String,
}

/// How the keys are drawn, on a background.
pub struct Drawing {
    pub background: u32,
    /// The font of the texts.
    pub font: String,
    /// The keys, from left to right.
    pub keys: Vec<DrawKey>,
}

/// The gap before the key at `i`: none before the first.
pub open spec fn gap_before(i: int, padding: u32, scale: i32) -> int {
    if i > 0 {
        padding * as_unsigned(scale as int)
    } else {
        0
    }
}

/// Where the first `n` keys end, of which each has its measured size, after what is drawn up to
/// `start`.
pub open spec fn end_of_keys(
    start: int,
    sizes: Seq<(i32, i32)>,
    n: int,
    padding: u32,
    scale: i32,
) -> int
    decreases n,
{
    if n <= 0 {
        start
    } else {
        end_of_keys(start, sizes, n - 1, padding, scale) + gap_before(n - 1, padding, scale)
            + as_unsigned(sizes[n - 1].0 as int)
    }
}

/// The greatest height among the first `n` keys, and not below `start`.
pub open spec fn height_of_keys(start: int, sizes: Seq<(i32, i32)>, n: int) -> int
    decreases n,
{
    if n <= 0 {
        start
    } else {
        let before = height_of_keys(start, sizes, n - 1);
        let height = as_unsigned(sizes[n - 1].1 as int);
        if before < height {
            height
        } else {
            before
        }
    }
}

/// More keys never end before fewer, and the gap before a key is within what follows.
proof fn keys_end_in_order(
    start: int,
    sizes: Seq<(i32, i32)>,
    i: int,
    n: int,
    padding: u32,
    scale: i32,
)
    requires
        0 <= i <= n,
        0 <= start,
    ensures
        0 <= end_of_keys(start, sizes, i, padding, scale) <= end_of_keys(
            start,
            sizes,
            n,
            padding,
            scale,
        ),
        0 <= gap_before(i, padding, scale),
        i < n ==> end_of_keys(start, sizes, i, padding, scale) + gap_before(i, padding, scale)
            + as_unsigned(sizes[i].0 as int) <= end_of_keys(start, sizes, n, padding, scale),
    decreases n,
{
    assert(0 <= padding * as_unsigned(scale as int)) by (nonlinear_arith)
        requires
            0 <= padding,
            0 <= as_unsigned(scale as int),
    ;
    if i < n {
        keys_end_in_order(start, sizes, i, n - 1, padding, scale);
    } else if n > 0 {
        keys_end_in_order(start, sizes, n - 1, n - 1, padding, scale);
    }
}

/// Each key begins one gap behind the end of the key before it, and the row ends where its last
/// key does.
proof fn keys_are_in_a_row(
    start: int,
    sizes: Seq<(i32, i32)>,
    n: int,
    padding: u32,
    scale: i32,
)
    requires
        0 <= n <= sizes.len(),
    ensures
        n == 0 ==> end_of_keys(start, sizes, n, padding, scale) == start,
        end_of_keys(start, sizes, 0, padding, scale) + gap_before(0, padding, scale) == start,
        forall|i: int, j: int|
            #![trigger sizes[i], sizes[j]]
            0 <= i && j == i + 1 && j < n ==> end_of_keys(start, sizes, j, padding, scale)
                + gap_before(j, padding, scale) == end_of_keys(start, sizes, i, padding, scale)
                + gap_before(i, padding, scale) + as_unsigned(sizes[i].0 as int) + padding
                * as_unsigned(scale as int),
        n > 0 ==> end_of_keys(start, sizes, n, padding, scale) == end_of_keys(
            start,
            sizes,
            n - 1,
            padding,
            scale,
        ) + gap_before(n - 1, padding, scale) + as_unsigned(sizes[n - 1].0 as int),
{
}

/// The row is as high as its highest key, and no less high than what was there before.
proof fn row_is_high_enough(start: int, sizes: Seq<(i32, i32)>, n: int)
    requires
        0 <= n <= sizes.len(),
    ensures
        n == 0 ==> height_of_keys(start, sizes, n) == start,
        height_of_keys(start, sizes, n) >= start,
        forall|i: int|
            0 <= i < n ==> height_of_keys(start, sizes, n) >= as_unsigned(
                (#[trigger] sizes[i]).1 as int,
            ),
        height_of_keys(start, sizes, n) == start || exists|i: int|
            0 <= i < n && height_of_keys(start, sizes, n) == as_unsigned(
                (#[trigger] sizes[i]).1 as int,
            ),
    decreases n,
{
    if n > 0 {
        row_is_high_enough(start, sizes, n - 1);
        assert(sizes[n - 1] == sizes[n - 1]);
    }
}

impl AppState {
    /// The color of a key: the one of text where it types any, else the one of special keys.
    pub open spec fn key_color(self, key: Keypress) -> u32 {
        if key.utf8@.len() == 0 {
            self.specialfg
        } else {
            self.foreground
        }
    }

    /// The texts to measure for [`AppState::render_to_cairo`], one for each key.
    pub fn key_texts(&self) -> (r: Vec<String>)
        ensures
            r@.len() == self.keys@.len(),
            forall|i: int| 0 <= i < r@.len() ==> (#[trigger] r@[i])@ == self.keys@[i].shown(),
            forall|i: int|
                0 <= i < r@.len() && self.keys@[i].utf8@.len() > 0 ==> (#[trigger] r@[i])@
                    == self.keys@[i].utf8@,
    {
        let mut r: Vec<String> = Vec::new();
        let mut i: usize = 0;
        while i < self.keys.len()
            invariant
                i <= self.keys.len(),
                r@.len() == i,
                forall|j: int| 0 <= j < i ==> (#[trigger] r@[j])@ == self.keys@[j].shown(),
            decreases self.keys.len() - i,
        {
            r.push(self.keys[i].text());
            i += 1;
        }
        r
    }

    /// Lays the keys out in a row, on the background: `sizes` holds the measured width and
    /// height of each. `width` and `height` grow to the size of the row.
    pub fn render_to_cairo(
        &self,
        scale: i32,
        sizes: &Vec<(i32, i32)>,
        width: &mut u32,
        height: &mut u32,
    ) -> (r: Drawing)
        requires
            sizes@.len() == self.keys@.len(),
            end_of_keys(
                *old(width) as int,
                sizes@,
                sizes@.len() as int,
                self.padding,
                scale,
            ) <= u32::MAX,
        ensures
            r.background == self.background,
            r.font@ == self.font@,
            r.keys@.len() == self.keys@.len(),
            forall|i: int|
                #![trigger r.keys@[i]]
                0 <= i < r.keys@.len() ==> {
                    &&& r.keys@[i].color == self.key_color(self.keys@[i])
                    &&& r.keys@[i].x == end_of_keys(
                        *old(width) as int,
                        sizes@,
                        i,
                        self.padding,
                        scale,
                    ) + gap_before(i, self.padding, scale)
                    &&& r.keys@[i].text@ == self.keys@[i].shown()
                },
            forall|i: int|
                #![trigger r.keys@[i]]
                0 <= i < r.keys@.len() ==> {
                    &&& self.keys@[i].utf8@.len() > 0 ==> r.keys@[i].color == self.foreground
                        && r.keys@[i].text@ == self.keys@[i].utf8@
                    &&& self.keys@[i].utf8@.len() == 0 ==> r.keys@[i].color == self.specialfg
                },
            r.keys@.len() == 0 ==> *final(width) == *old(width) && *final(height) == *old(height),
            r.keys@.len() > 0 ==> r.keys@[0].x == *old(width),
            forall|i: int, j: int|
                #![trigger r.keys@[i], r.keys@[j]]
                0 <= i && j == i + 1 && j < r.keys@.len() && scale >= 0 && sizes@[i].0 >= 0
                    ==> r.keys@[j].x == r.keys@[i].x + sizes@[i].0 + self.padding * scale,
            r.keys@.len() > 0 && sizes@[r.keys@.len() - 1].0 >= 0 ==> *final(width)
                == r.keys@[r.keys@.len() - 1].x + sizes@[r.keys@.len() - 1].0,
            *final(height) >= *old(height),
            forall|i: int|
                0 <= i < sizes@.len() ==> *final(height) >= (#[trigger] sizes@[i]).1,
            *final(height) == *old(height) || exists|i: int|
                0 <= i < sizes@.len() && (*final(height) == (#[trigger] sizes@[i]).1
                    || *final(height) == sizes@[i].1 + 0x1_0000_0000),
            *final(width) == end_of_keys(
                *old(width) as int,
                sizes@,
                sizes@.len() as int,
                self.padding,
                scale,
            ),
            *final(height) == height_of_keys(*old(height) as int, sizes@, sizes@.len() as int),
    {
        let ghost start = *width as int;
        let ghost n = sizes@.len() as int;
        let mut r: Vec<DrawKey> = Vec::new();
        let mut i: usize = 0;
        while i < self.keys.len()
            invariant
                i <= self.keys.len(),
                r@.len() == i,
                n == sizes@.len(),
                n == self.keys@.len(),
                start == *old(width) as int,
                end_of_keys(start, sizes@, n, self.padding, scale) <= u32::MAX,
                *width == end_of_keys(start, sizes@, i as int, self.padding, scale),
                *height == height_of_keys(*old(height) as int, sizes@, i as int),
                forall|j: int|
                    #![trigger r@[j]]
                    0 <= j < r@.len() ==> {
                        &&& r@[j].color == self.key_color(self.keys@[j])
                        &&& r@[j].x == end_of_keys(start, sizes@, j, self.padding, scale)
                            + gap_before(j, self.padding, scale)
                        &&& r@[j].text@ == self.keys@[j].shown()
                    },
            decreases self.keys.len() - i,
        {
            proof {
                keys_end_in_order(start, sizes@, i as int, n, self.padding, scale);
            }
            if i > 0 {
                *width = *width + self.padding * to_unsigned(scale);
            }
            let key: &Keypress = &self.keys[i];
            let color: u32 = if key.utf8.as_str().is_empty() {
                self.specialfg
            } else {
                self.foreground
            };
            r.push(DrawKey { color, x: *width, text: key.text() });
            let (w, h): (i32, i32) = sizes[i];
            *width = *width + to_unsigned(w);
            let h: u32 = to_unsigned(h);
            if *height < h {
                *height = h;
            }
            i += 1;
        }
        proof {
            keys_are_in_a_row(start, sizes@, n, self.padding, scale);
            row_is_high_enough(*old(height) as int, sizes@, n);
        }
        Drawing { background: self.background, font: self.font.clone(), keys: r }
    }
}

/// What to do with a frame of a given size.
#[derive(Debug, Clone, Copy, PartialEq, Eq, Structural)]
pub enum FrameAction {
    /// Nothing.
    Skip,
    /// Take the surface off the screen: attach no buffer, and commit.
    Unmap,
    /// Ask the compositor for this size, where there is a layer surface to ask for, and commit.
    Resize { width: u32, height: u32, layer_surface: bool },
    /// Draw into a buffer of the size that [`AppState::buffer_size`] gives;
    /// [`AppState::present`] follows.
    Draw,
}

/// What is left of a division is less than the divisor.
proof fn quotient_bounds(n: int, s: int)
    requires
        n >= 0,
        s > 0,
    ensures
        (n / s) * s <= n < (n / s + 1) * s,
        0 <= n / s <= n,
        n > 0 && s == 1 ==> n / s == n,
{
    assert((n / s) * s <= n < (n / s + 1) * s && 0 <= n / s <= n && (s == 1 ==> n / s == n))
        by (nonlinear_arith)
        requires
            n >= 0,
            s > 0,
    ;
}

/// A part of a length is the only one of which the length holds so many, and not one more.
proof fn quotient_is(n: int, s: int, a: int)
    requires
        n >= 0,
        s > 0,
        a * s <= n < (a + 1) * s,
    ensures
        n / s == a,
{
    let q = n / s;
    quotient_bounds(n, s);
    assert(q == a) by (nonlinear_arith)
        requires
            s > 0,
            a * s <= n < (a + 1) * s,
            q * s <= n < (q + 1) * s,
    ;
}

impl AppState {
    /// The scale of the output that the surface is on: one where that is not known.
    pub open spec fn scale(self) -> i32 {
        match self.current_output {
            Some(i) => if i < self.outputs@.len() {
                self.outputs@[i as int].scale
            } else {
                1
            },
            None => 1,
        }
    }

    /// The scale as an unsigned number.
    pub open spec fn unsigned_scale(self) -> int {
        as_unsigned(self.scale() as int)
    }

    /// Whether the compositor has not confirmed the size that a frame needs.
    pub open spec fn needs_configure(self, width: int, height: int) -> bool {
        ||| height / self.unsigned_scale() != self.height
        ||| width / self.unsigned_scale() != self.width
        ||| self.width == 0
    }

    /// What to do with a frame of this size. Nothing is drawn before the compositor has confirmed
    /// the size.
    pub open spec fn frame_action(self, width: int, height: int) -> FrameAction {
        if self.needs_configure(width, height) {
            if !self.surface {
                FrameAction::Skip
            } else if width == 0 || height == 0 {
                FrameAction::Unmap
            } else {
                FrameAction::Resize {
                    width: (width / self.unsigned_scale()) as u32,
                    height: (height / self.unsigned_scale()) as u32,
                    layer_surface: self.layer_surface,
                }
            }
        } else if height > 0 && self.shm {
            FrameAction::Draw
        } else {
            FrameAction::Skip
        }
    }

    /// The state after a frame of this size. A surface that was taken off the screen has no
    /// confirmed size any longer.
    pub open spec fn after_frame(self, width: int, height: int) -> AppState {
        if self.frame_action(width, height) is Unmap {
            AppState { width: 0, height: 0, ..self }
        } else {
            self
        }
    }

    /// The scale of the output that the surface is on: one where that is not known.
    pub fn current_scale(&self) -> (r: i32)
        ensures
            r == self.scale(),
            self.current_output matches Some(i) && i < self.outputs@.len() ==> r
                == self.outputs@[self.current_output->0 as int].scale,
            self.current_output is None ==> r == 1,
            self.current_output matches Some(i) && i >= self.outputs@.len() ==> r == 1,
    {
        match self.current_output {
            Some(idx) => if idx < self.outputs.len() {
                self.outputs[idx].scale
            } else {
                1
            },
            None => 1,
        }
    }

    /// Decides what to do with a frame whose row of keys has this size, in the pixels of the
    /// output.
    pub fn render_frame(&mut self, width: u32, height: u32) -> (r: FrameAction)
        requires
            old(self).scale() != 0,
        ensures
            r == old(self).frame_action(width as int, height as int),
            *final(self) == old(self).after_frame(width as int, height as int),
            old(self).wf() ==> final(self).wf(),
            r matches FrameAction::Resize { width: a, height: b, layer_surface } ==> {
                let s = old(self).scale();
                &&& s > 0 ==> a * s <= width < (a + 1) * s && b * s <= height < (b + 1) * s
                &&& s < 0 ==> a * (s + 0x1_0000_0000) <= width < (a + 1) * (s + 0x1_0000_0000)
                    && b * (s + 0x1_0000_0000) <= height < (b + 1) * (s + 0x1_0000_0000)
                &&& width > 0 && height > 0
                &&& layer_surface == old(self).layer_surface
                &&& old(self).surface
            },
            r is Draw ==> {
                let s = old(self).scale();
                let (a, b) = (old(self).width, old(self).height);
                &&& s > 0 ==> a * s <= width < (a + 1) * s && b * s <= height < (b + 1) * s
                &&& s < 0 ==> a * (s + 0x1_0000_0000) <= width < (a + 1) * (s + 0x1_0000_0000)
                    && b * (s + 0x1_0000_0000) <= height < (b + 1) * (s + 0x1_0000_0000)
                &&& a > 0 && height > 0
                &&& old(self).shm
            },
            old(self).surface && (width == 0 || height == 0) && (old(self).width == 0
                || old(self).height > 0) ==> r is Unmap,
            r is Unmap ==> old(self).surface && (width == 0 || height == 0) && *final(self) == (
            AppState { width: 0, height: 0, ..*old(self) }),
            !(r is Unmap) ==> *final(self) == *old(self),
            old(self).surface && old(self).shm && width > 0 && height > 0 ==> r is Resize
                || r is Draw,
            !old(self).surface ==> r is Skip || r is Draw,
            old(self).width == 0 ==> !(r is Draw),
    {
        let scale: u32 = to_unsigned(self.current_scale());
        proof {
            quotient_bounds(width as int, scale as int);
            quotient_bounds(height as int, scale as int);
            frame_has_the_size_of_its_row(*self, width, height);
        }
        let w: u32 = width / scale;
        let h: u32 = height / scale;
        if h != self.height || w != self.width || self.width == 0 {
            if !self.surface {
                return FrameAction::Skip;
            }
            if width == 0 || height == 0 {
                self.width = 0;
                self.height = 0;
                return FrameAction::Unmap;
            }
            FrameAction::Resize { width: w, height: h, layer_surface: self.layer_surface }
        } else if height > 0 && self.shm {
            FrameAction::Draw
        } else {
            FrameAction::Skip
        }
    }
}

impl AppState {
    /// The size of the buffer for a frame of this size.
    pub fn buffer_size(&self, width: u32, height: u32) -> (r: (u32, u32))
        requires
            width * self.unsigned_scale() <= u32::MAX,
            height * self.unsigned_scale() <= u32::MAX,
        ensures
            r.0 == width * self.unsigned_scale(),
            r.1 == height * self.unsigned_scale(),
            self.scale() > 0 ==> r.0 == width * self.scale() && r.1 == height * self.scale(),
    {
        let scale: u32 = to_unsigned(self.current_scale());
        (width * scale, height * scale)
    }
}

/// What to tell the compositor of a frame that was drawn, before the commit.
#[derive(Debug, Clone, Copy, PartialEq, Eq)]
pub struct Commit {
    pub scale: i32,
    /// The buffer to attach.
    pub buffer: Option<u64>,
    /// The size of what changed, from the corner on.
    pub damage_width: i32,
    pub damage_height: i32,
}

/// What to do with a buffer that was taken for a frame.
#[derive(Debug, Clone, Copy, PartialEq, Eq)]
pub struct Presentation {
    /// Whether to draw into it; nothing else is done where there is nothing to draw with.
    pub paint: bool,
    /// What to tell the compositor after that.
    pub commit: Option<Commit>,
}

impl AppState {
    /// What to do with the buffer at `index`, which was taken for a frame.
    pub fn present(&self, index: usize) -> (r: Presentation)
        requires
            index < 2,
        ensures
            r.paint == self.buffers@[index as int].cairo,
            r.commit is Some <==> self.buffers@[index as int].cairo && self.surface,
            r.commit matches Some(commit) ==> {
                &&& commit.scale == self.scale()
                &&& commit.buffer == self.buffers@[index as int].buffer
                &&& commit.damage_width == as_signed(self.width as int)
                &&& commit.damage_height == as_signed(self.height as int)
                &&& self.width <= i32::MAX ==> commit.damage_width == self.width
                &&& self.height <= i32::MAX ==> commit.damage_height == self.height
            },
    {
        let buffer = self.buffers[index];
        if !buffer.cairo {
            return Presentation { paint: false, commit: None };
        }
        if !self.surface {
            return Presentation { paint: true, commit: None };
        }
        let commit = Commit {
            scale: self.current_scale(),
            buffer: buffer.buffer,
            damage_width: to_signed(self.width),
            damage_height: to_signed(self.height),
        };
        Presentation { paint: true, commit: Some(commit) }
    }
}

/// The sum of the widths of the first `n` keys.
pub open spec fn widths(sizes: Seq<(i32, i32)>, n: int) -> int
    decreases n,
{
    if n <= 0 {
        0
    } else {
        widths(sizes, n - 1) + as_unsigned(sizes[n - 1].0 as int)
    }
}

/// The row of keys is as wide as the keys together, with one gap between each two of them and none
/// before the first or behind the last.
#[verifier::spinoff_prover]
pub proof fn gaps_are_between_keys(
    start: int,
    sizes: Seq<(i32, i32)>,
    n: int,
    padding: u32,
    scale: i32,
)
    requires
        1 <= n <= sizes.len(),
    ensures
        end_of_keys(start, sizes, n, padding, scale) == start + widths(sizes, n) + (n - 1) * (
        padding * as_unsigned(scale as int)),
    decreases n,
{
    let gap = padding * as_unsigned(scale as int);
    let last = as_unsigned(sizes[n - 1].0 as int);
    if n == 1 {
        reveal_with_fuel(end_of_keys, 2);
        reveal_with_fuel(widths, 2);
        assert(gap_before(0, padding, scale) == 0);
        assert(end_of_keys(start, sizes, 1, padding, scale) == start + last);
        assert(widths(sizes, 1) == last);
        assert((n - 1) * gap == 0) by (nonlinear_arith)
            requires
                n == 1,
        ;
    } else {
        let shorter = end_of_keys(start, sizes, n - 1, padding, scale);
        gaps_are_between_keys(start, sizes, n - 1, padding, scale);
        assert(shorter == start + widths(sizes, n - 1) + (n - 2) * gap);
        assert(gap_before(n - 1, padding, scale) == gap);
        assert(end_of_keys(start, sizes, n, padding, scale) == shorter + gap + last);
        assert(widths(sizes, n) == widths(sizes, n - 1) + last);
        assert((n - 2) * gap + gap == (n - 1) * gap) by (nonlinear_arith);
    }
}

/// No key is drawn over the one before it: each begins one gap behind the end of that one.
pub proof fn keys_do_not_overlap(
    start: int,
    sizes: Seq<(i32, i32)>,
    i: int,
    padding: u32,
    scale: i32,
)
    requires
        0 <= start,
        0 <= i,
        i + 1 < sizes.len(),
    ensures
        ({
            let x = |j: int|
                end_of_keys(start, sizes, j, padding, scale) + gap_before(j, padding, scale);
            &&& x(i + 1) == x(i) + as_unsigned(sizes[i].0 as int) + padding * as_unsigned(
                scale as int,
            )
            &&& x(i + 1) >= x(i) + as_unsigned(sizes[i].0 as int)
        }),
{
    assert(0 <= padding * as_unsigned(scale as int)) by (nonlinear_arith)
        requires
            0 <= padding,
            0 <= as_unsigned(scale as int),
    ;
}

/// The row of keys is as high as its highest key.
pub proof fn row_is_as_high_as_keys(sizes: Seq<(i32, i32)>, n: int, i: int)
    requires
        0 <= i < n <= sizes.len(),
    ensures
        as_unsigned(sizes[i].1 as int) <= height_of_keys(0, sizes, n),
        exists|j: int|
            0 <= j < n && as_unsigned((#[trigger] sizes[j]).1 as int) == height_of_keys(0, sizes, n),
    decreases n,
{
    let last = as_unsigned(sizes[n - 1].1 as int);
    if n == 1 {
        reveal_with_fuel(height_of_keys, 2);
        assert(as_unsigned(sizes[0].1 as int) == height_of_keys(0, sizes, 1));
    } else {
        row_is_as_high_as_keys(
            sizes,
            n - 1,
            if i < n - 1 {
                i
            } else {
                0
            },
        );
        if height_of_keys(0, sizes, n - 1) < last {
            assert(as_unsigned(sizes[n - 1].1 as int) == height_of_keys(0, sizes, n));
        } else {
            let j = choose|j: int|
                0 <= j < n - 1 && as_unsigned((#[trigger] sizes[j]).1 as int) == height_of_keys(
                    0,
                    sizes,
                    n - 1,
                );
            assert(as_unsigned(sizes[j].1 as int) == height_of_keys(0, sizes, n));
        }
    }
}

/// Whether one state follows another without a size that the compositor confirmed: by a frame, or
/// by anything that leaves the size alone.
pub open spec fn follows_without_configure(before: AppState, after: AppState) -> bool {
    ||| after.width == before.width && after.height == before.height
    ||| exists|width: u32, height: u32|
        after == #[trigger] before.after_frame(width as int, height as int)
}

/// Whether the compositor confirmed no size in a history of states.
pub open spec fn without_configure(history: Seq<AppState>) -> bool {
    forall|i: int|
        0 <= i < history.len() - 1 ==> follows_without_configure(
            #[trigger] history[i],
            history[i + 1],
        )
}

/// No buffer is drawn for a surface without a confirmed size, whatever happens, until the
/// compositor confirms one.
pub proof fn no_buffer_before_configure(history: Seq<AppState>, i: int, width: u32, height: u32)
    requires
        without_configure(history),
        0 <= i < history.len(),
        history[0].width == 0,
    ensures
        history[i].width == 0,
        !(history[i].frame_action(width as int, height as int) is Draw),
    decreases i,
{
    if i > 0 {
        no_buffer_before_configure(history, i - 1, width, height);
        assert(follows_without_configure(history[i - 1], history[i]));
    }
}

/// A surface that was taken off the screen has no confirmed size, so that the next frame asks for
/// one and none is drawn before the answer.
pub proof fn unmapped_surface_is_unconfigured(
    state: AppState,
    width: u32,
    height: u32,
    next_width: u32,
    next_height: u32,
)
    requires
        state.frame_action(width as int, height as int) is Unmap,
    ensures
        state.after_frame(width as int, height as int).width == 0,
        state.after_frame(width as int, height as int).height == 0,
        next_width > 0 && next_height > 0 ==> state.after_frame(
            width as int,
            height as int,
        ).frame_action(next_width as int, next_height as int) is Resize,
{
}

/// Once the compositor confirms the size that a frame asked for, that frame is drawn.
pub proof fn confirmed_frame_is_drawn(state: AppState, width: u32, height: u32)
    requires
        state.scale() != 0,
        state.shm,
        state.frame_action(width as int, height as int) matches FrameAction::Resize { width: w, .. }
            && w > 0,
    ensures
        state.frame_action(width as int, height as int) matches FrameAction::Resize {
            width: w,
            height: h,
            ..
        } && (AppState { width: w, height: h, ..state }).frame_action(
            width as int,
            height as int,
        ) is Draw,
{
    let s = state.unsigned_scale();
    let w = width as int;
    let h = height as int;
    assert(0 <= w / s <= w && 0 <= h / s <= h) by (nonlinear_arith)
        requires
            0 <= w,
            0 <= h,
            0 < s,
    ;
}

/// A frame that is drawn has a size, and so has its buffer.
pub proof fn drawn_frame_has_a_size(state: AppState, width: u32, height: u32)
    requires
        state.scale() != 0,
        state.frame_action(width as int, height as int) is Draw,
    ensures
        width > 0 && height > 0,
        width * state.unsigned_scale() > 0,
        height * state.unsigned_scale() > 0,
{
    let s = state.unsigned_scale();
    assert(0int / s == 0) by (nonlinear_arith)
        requires
            0 < s,
    ;
    assert(width * s > 0 && height * s > 0) by (nonlinear_arith)
        requires
            width > 0,
            height > 0,
            s > 0,
    ;
}

/// A frame without keys takes the surface off the screen.
pub proof fn empty_frame_unmaps(state: AppState)
    requires
        state.scale() != 0,
        state.surface,
    ensures
        state.frame_action(0, 0) is Unmap,
{
    let s = state.unsigned_scale();
    assert(0int / s == 0) by (nonlinear_arith)
        requires
            0 < s,
    ;
}

/// The size that is asked for is the row's own, at the scale of the output: no pixel more than the
/// row has, and none less but for a remainder smaller than the scale. Nothing is drawn unless the
/// confirmed size is that one.
pub proof fn frame_has_the_size_of_its_row(state: AppState, width: u32, height: u32)
    requires
        state.scale() != 0,
    ensures
        ({
            let s = if state.scale() > 0 {
                state.scale() as int
            } else {
                state.scale() + 0x1_0000_0000
            };
            let fits = |a: u32, b: u32|
                a * s <= width < (a + 1) * s && b * s <= height < (b + 1) * s;
            let confirmed = state.width > 0 && fits(state.width, state.height);
            match state.frame_action(width as int, height as int) {
                FrameAction::Resize { width: a, height: b, layer_surface } => {
                    &&& fits(a, b)
                    &&& !confirmed
                    &&& state.surface && width > 0 && height > 0
                    &&& layer_surface == state.layer_surface
                },
                FrameAction::Draw => confirmed && state.shm && height > 0,
                FrameAction::Unmap => !confirmed && state.surface && (width == 0 || height == 0),
                FrameAction::Skip => if confirmed {
                    height == 0 || !state.shm
                } else {
                    !state.surface
                },
            }
        }),
{
    let s = state.unsigned_scale();
    let (w, h) = (width as int, height as int);
    quotient_bounds(w, s);
    quotient_bounds(h, s);
    let (a, b) = (state.width as int, state.height as int);
    if a * s <= w < (a + 1) * s {
        quotient_is(w, s, a);
    }
    if b * s <= h < (b + 1) * s {
        quotient_is(h, s, b);
    }
}

/// On an output of scale one, the surface is asked to be exactly as large as the row of keys.
pub proof fn unscaled_frame_asks_for_its_row(state: AppState, width: u32, height: u32)
    requires
        state.scale() == 1,
        state.surface,
        width > 0,
        height > 0,
        state.width != width || state.height != height,
    ensures
        state.frame_action(width as int, height as int) == (FrameAction::Resize {
            width,
            height,
            layer_surface: state.layer_surface,
        }),
{
    quotient_bounds(width as int, 1);
    quotient_bounds(height as int, 1);
}

/// The color of a key tells whether it types text: what it is called makes no difference.
pub proof fn color_tells_text_from_special_keys(state: AppState, key: Keypress)
    ensures
        key.utf8@.len() > 0 ==> state.key_color(key) == state.foreground,
        key.utf8@.len() == 0 ==> state.key_color(key) == state.specialfg,
{
}

/// The scale is that of the current output and no other; it is one where there is none.
pub proof fn scale_is_that_of_the_output(state: AppState, i: usize)
    ensures
        state.current_output == Some(i) && i < state.outputs@.len() ==> state.scale()
            == state.outputs@[i as int].scale,
        state.current_output == Some(i) && i >= state.outputs@.len() ==> state.scale() == 1,
        state.current_output is None ==> state.scale() == 1,
        state.scale() >= 0 ==> state.unsigned_scale() == state.scale(),
        state.scale() < 0 ==> state.unsigned_scale() == state.scale() + 0x1_0000_0000,
{
}

/// A length of 32 bits keeps its bits when it is taken as an unsigned number.
pub proof fn unsigned_numbers_keep_their_bits(n: i32)
    ensures
        0 <= as_unsigned(n as int) <= u32::MAX,
        as_unsigned(n as int) == n || as_unsigned(n as int) == n + 0x1_0000_0000,
{
}

/// No key has a gap before it but for those that follow another; that gap is the padding, at the
/// scale of the output.
pub proof fn gaps_follow_the_scale(state: AppState, i: int)
    requires
        state.scale() > 0,
    ensures
        state.unsigned_scale() == state.scale(),
        gap_before(0, state.padding, state.scale()) == 0,
        i > 0 ==> gap_before(i, state.padding, state.scale()) == state.padding * state.scale(),
{
}

} // verus!
