//! The pool of two buffers that frames are drawn into.

use crate::shm::ShmError;
use vstd::prelude::*;
use vstd::string::StringExecFns;
use wayland_client::protocol::wl_shm::Format;

verus! {

/// One buffer of the pool: the compositor's buffer, the drawing surface over its memory, and that
/// memory's mapping.
#[derive(Debug, Clone, Copy, PartialEq, Eq)]
pub struct PoolBuffer {
    /// The compositor's buffer.
    pub buffer: Option<u64>,
    /// Whether there is a drawing surface over the memory.
    pub surface: bool,
    /// Whether there is a drawing context for the surface.
    pub cairo: bool,
    pub width: u32,
    pub height: u32,
    /// Where the memory is mapped.
    pub data: Option<usize>,
    /// The length of the mapping.
    pub size: usize,
    /// Whether the compositor still reads the buffer.
    pub busy: bool,
}

/// What a buffer gives back to the system when it is destroyed.
#[derive(Debug, Clone, Copy, PartialEq, Eq)]
pub struct Released {
    /// The compositor's buffer to destroy.
    pub buffer: Option<u64>,
    /// The mapping to remove: where it is and how long.
    pub mapping: Option<(usize, usize)>,
}

/// A buffer with nothing behind it.
pub open spec fn empty_buffer() -> PoolBuffer {
    PoolBuffer {
        buffer: None,
        surface: false,
        cairo: false,
        width: 0,
        height: 0,
        data: None,
        size: 0,
        busy: false,
    }
}

/// A buffer with nothing behind it is well-formed.
proof fn empty_buffer_is_wf()
    ensures
        empty_buffer().wf(),
{
}

/// Nothing to give back.
pub open spec fn nothing_released() -> Released {
    Released { buffer: None, mapping: None }
}

impl PoolBuffer {
    /// What the buffer holds of the system's.
    pub open spec fn resources(self) -> Released {
        Released {
            buffer: self.buffer,
            mapping: match self.data {
                Some(data) => Some((data, self.size)),
                None => None,
            },
        }
    }

    /// A buffer is either complete or has neither a compositor's buffer nor anything to draw on;
    /// its mapping holds its pixels; and only a complete buffer is busy.
    pub open spec fn wf(self) -> bool {
        &&& self.surface == (self.buffer is Some)
        &&& self.cairo == (self.buffer is Some)
        &&& self.buffer is Some ==> self.data is Some
        &&& self.size == self.width * self.height * 4
        &&& self.data is Some <==> self.size > 0
        &&& self.data is None ==> self.width == 0 && self.height == 0
        &&& self.busy ==> self.buffer is Some
    }

    /// A buffer with nothing behind it.
    pub fn new() -> (r: Self)
        ensures
            r == empty_buffer(),
            r.buffer is None && r.data is None && !r.surface && !r.cairo && !r.busy,
            r.width == 0 && r.height == 0 && r.size == 0,
            r.wf(),
    {
        PoolBuffer {
            buffer: None,
            surface: false,
            cairo: false,
            width: 0,
            height: 0,
            data: None,
            size: 0,
            busy: false,
        }
    }

    /// Empties the buffer, and gives back what it held.
    pub fn destroy(&mut self) -> (r: Released)
        ensures
            *final(self) == empty_buffer(),
            r == old(self).resources(),
            final(self).buffer is None && final(self).data is None,
            !final(self).surface && !final(self).cairo && !final(self).busy,
            final(self).width == 0 && final(self).height == 0 && final(self).size == 0,
            r.buffer == old(self).buffer,
            old(self).data matches Some(data) ==> r.mapping == Some((data, old(self).size)),
            old(self).data is None ==> r.mapping is None,
    {
        let mapping = match self.data {
            Some(data) => Some((data, self.size)),
            None => None,
        };
        let released = Released { buffer: self.buffer, mapping };
        self.buffer = None;
        self.cairo = false;
        self.surface = false;
        self.data = None;
        self.width = 0;
        self.height = 0;
        self.size = 0;
        self.busy = false;
        released
    }
}

/// A number of 32 bits, taken as one in two's complement.
pub open spec fn as_signed(n: int) -> int {
    if n < 0x8000_0000 {
        n
    } else {
        n - 0x1_0000_0000
    }
}

/// The two's complement of 32 bits.
pub fn to_signed(n: u32) -> (r: i32)
    ensures
        r == as_signed(n as int),
        r == n || r == n - 0x1_0000_0000,
{
    assert(n < 0x8000_0000 ==> n as i32 == n) by (bit_vector);
    assert(n >= 0x8000_0000 ==> n as i32 == n - 0x1_0000_0000) by (bit_vector);
    n as i32
}

/// Whether the pixels of a buffer, four bytes each, can be counted in 32 bits, and there are any.
pub open spec fn has_layout(width: u32, height: u32) -> bool {
    0 < width * height * 4 <= u32::MAX
}

/// What the system is asked for to make a buffer: its memory, and its shape in the terms of the
/// compositor and of the drawing library, with four bytes for each pixel.
#[derive(Debug, Clone, Copy, PartialEq, Eq)]
pub struct BufferLayout {
    /// The length of the memory.
    pub size: usize,
    /// The length of the memory as the compositor takes it.
    pub pool_size: i32,
    pub width: i32,
    pub height: i32,
    /// The length of one row.
    pub stride: i32,
    /// Where in the memory the first row begins.
    pub offset: i32,
    /// The number of the pixels' format.
    pub format: u32,
}

/// Converts `Format::Argb8888` of `wayland_client`, whose pixels have 8 bits each of alpha, red,
/// green and blue, to its number in the protocol, which is 0.
#[verifier::external_body]
fn argb8888() -> (r: u32)
    ensures
        r == 0,
{
    u32::from(Format::Argb8888)
}

/// The memory and the shape of a buffer, whose pixels have 8 bits each of alpha, red, green and
/// blue.
pub fn buffer_layout(width: u32, height: u32) -> (r: BufferLayout)
    requires
        has_layout(width, height),
    ensures
        r.size == width * height * 4,
        r.pool_size == as_signed(width * height * 4),
        r.width == width,
        r.height == height,
        r.stride == as_signed(width * 4),
        r.offset == 0,
        r.format == 0,
        r.size <= i32::MAX ==> r.pool_size == r.size && r.stride == 4 * width && r.pool_size
            == r.stride * height,
{
    assert(width <= 0x3fff_ffff && height <= 0x3fff_ffff && width * 4 * height == width * height
        * 4 && width * 4 <= u32::MAX) by (nonlinear_arith)
        requires
            0 < width * height * 4 <= u32::MAX,
            0 <= width,
            0 <= height,
    ;
    let stride: u32 = width * 4;
    let size: u32 = stride * height;
    assert(size <= i32::MAX ==> stride <= i32::MAX) by (nonlinear_arith)
        requires
            size == stride * height,
            0 < width * height * 4,
            0 <= width,
            0 <= height,
            0 <= stride,
    ;
    BufferLayout {
        size: size as usize,
        pool_size: to_signed(size),
        width: to_signed(width),
        height: to_signed(height),
        stride: to_signed(stride),
        offset: 0,
        format: argb8888(),
    }
}

/// How far the making of a buffer came.
#[derive(Debug, Clone, Copy, PartialEq, Eq)]
pub enum CreateOutcome {
    /// There is no file for its memory.
    NoFile(ShmError),
    /// The memory could not be mapped: the system's error number.
    NotMapped(i32),
    /// The memory is mapped at this address, and nothing can be drawn on it.
    NotDrawable(usize),
    /// The memory is mapped, and there is a compositor's buffer over it.
    Ready { data: usize, buffer: u64 },
}

/// Why there is no buffer for a frame.
#[derive(Debug, Clone, Copy, PartialEq, Eq)]
pub enum BufferError {
    /// Both buffers are busy.
    NoneFree,
    /// There is no file for its memory.
    NoFile(ShmError),
    /// The memory could not be mapped: the system's error number.
    NotMapped(i32),
    /// Nothing can be drawn on the memory.
    NotDrawable,
}

impl BufferError {
    /// What is said of the error; `system` is what the system or the drawing library says of it.
    pub open spec fn text(self, system: Seq<char>) -> Seq<char> {
        match self {
            BufferError::NoneFree => "No free buffers available"@,
            BufferError::NoFile(ShmError::NamesTaken) => "Failed to create shm file after retries"@,
            _ => system,
        }
    }

    /// What is said of the error; `system` is what the system or the drawing library says of it.
    pub fn message(self, system: &str) -> (r: String)
        ensures
            r@ == self.text(system@),
            self is NoneFree ==> r@ == "No free buffers available"@,
            self == BufferError::NoFile(ShmError::NamesTaken) ==> r@
                == "Failed to create shm file after retries"@,
            self matches BufferError::NoFile(ShmError::System(_)) ==> r@ == system@,
            self is NotMapped || self is NotDrawable ==> r@ == system@,
    {
        match self {
            BufferError::NoneFree => "No free buffers available".to_owned(),
            BufferError::NoFile(error) => error.message(system),
            BufferError::NotMapped(_) => system.to_owned(),
            BufferError::NotDrawable => system.to_owned(),
        }
    }

    /// The line that tells the user that a frame is left out for this error.
    pub fn report(self, system: &str) -> (r: String)
        ensures
            r@ == "Failed to get buffer: "@ + self.text(system@),
            self is NoneFree ==> r@ == "Failed to get buffer: "@ + "No free buffers available"@,
            self is NotMapped || self is NotDrawable ==> r@ == "Failed to get buffer: "@
                + system@,
    {
        let mut text: String = "Failed to get buffer: ".to_owned();
        let error: String = self.message(system);
        text.append(error.as_str());
        text
    }
}

/// A buffer after its making came this far.
pub open spec fn created(
    buf: PoolBuffer,
    width: u32,
    height: u32,
    outcome: CreateOutcome,
) -> PoolBuffer {
    let size = (width * height * 4) as usize;
    match outcome {
        CreateOutcome::NoFile(_) => buf,
        CreateOutcome::NotMapped(_) => buf,
        CreateOutcome::NotDrawable(data) => PoolBuffer {
            width,
            height,
            size,
            data: Some(data),
            ..buf
        },
        CreateOutcome::Ready { data, buffer } => PoolBuffer {
            width,
            height,
            size,
            data: Some(data),
            surface: true,
            cairo: true,
            buffer: Some(buffer),
            ..buf
        },
    }
}

/// What the making of a buffer is reported as.
pub open spec fn create_result(outcome: CreateOutcome) -> Result<(), BufferError> {
    match outcome {
        CreateOutcome::NoFile(e) => Err(BufferError::NoFile(e)),
        CreateOutcome::NotMapped(e) => Err(BufferError::NotMapped(e)),
        CreateOutcome::NotDrawable(_) => Err(BufferError::NotDrawable),
        CreateOutcome::Ready { .. } => Ok(()),
    }
}

/// Records how far the making of a buffer came, after the system was asked for what
/// [`buffer_layout`] says.
pub fn create_buffer(
    buf: &mut PoolBuffer,
    width: u32,
    height: u32,
    outcome: CreateOutcome,
) -> (r: Result<(), BufferError>)
    requires
        has_layout(width, height),
    ensures
        *final(buf) == created(*old(buf), width, height, outcome),
        r == create_result(outcome),
        r is Ok <==> outcome is Ready,
        r is Ok ==> {
            &&& final(buf).width == width && final(buf).height == height
            &&& final(buf).size == width * height * 4
            &&& final(buf).surface && final(buf).cairo
            &&& outcome matches CreateOutcome::Ready { data, buffer } && final(buf).data == Some(
                data,
            ) && final(buf).buffer == Some(buffer)
        },
        r is Err ==> final(buf).buffer == old(buf).buffer && final(buf).surface == old(buf).surface
            && final(buf).cairo == old(buf).cairo,
        final(buf).busy == old(buf).busy,
        outcome matches CreateOutcome::NoFile(e) ==> r == Err::<(), BufferError>(
            BufferError::NoFile(e),
        ) && *final(buf) == *old(buf),
        outcome matches CreateOutcome::NotMapped(e) ==> r == Err::<(), BufferError>(
            BufferError::NotMapped(e),
        ) && *final(buf) == *old(buf),
        outcome matches CreateOutcome::NotDrawable(data) ==> r == Err::<(), BufferError>(
            BufferError::NotDrawable,
        ) && final(buf).data == Some(data) && final(buf).size == width * height * 4 && final(buf).width == width && final(buf).height == height,
        old(buf).wf() && old(buf).buffer is None ==> final(buf).wf(),
{
    let layout = buffer_layout(width, height);
    match outcome {
        CreateOutcome::NoFile(e) => Err(BufferError::NoFile(e)),
        CreateOutcome::NotMapped(e) => Err(BufferError::NotMapped(e)),
        CreateOutcome::NotDrawable(data) => {
            buf.size = layout.size;
            buf.width = width;
            buf.height = height;
            buf.data = Some(data);
            Err(BufferError::NotDrawable)
        },
        CreateOutcome::Ready { data, buffer } => {
            buf.size = layout.size;
            buf.width = width;
            buf.height = height;
            buf.data = Some(data);
            buf.surface = true;
            buf.cairo = true;
            buf.buffer = Some(buffer);
            Ok(())
        },
    }
}

/// Which buffer is free: the first of the two that is not busy.
pub open spec fn free_buffer(pool: Seq<PoolBuffer>) -> Option<int> {
    if !pool[0].busy {
        Some(0)
    } else if !pool[1].busy {
        Some(1)
    } else {
        None
    }
}

/// A buffer made fit for a size: emptied where it has another.
pub open spec fn fitted(buf: PoolBuffer, width: u32, height: u32) -> PoolBuffer {
    if buf.width != width || buf.height != height {
        empty_buffer()
    } else {
        buf
    }
}

/// Both buffers are well-formed.
pub open spec fn pool_wf(pool: Seq<PoolBuffer>) -> bool {
    pool.len() == 2 && pool[0].wf() && pool[1].wf()
}

/// A buffer that was picked for the next frame.
#[derive(Debug, Clone, Copy, PartialEq, Eq)]
pub struct NextBuffer {
    /// Which one of the pool.
    pub index: usize,
    /// What to give back to the system first.
    pub released: Released,
    /// Whether it is still to be made, as [`buffer_layout`] says.
    pub create: bool,
}

/// Picks the first free buffer for a frame of this size, and empties it where its size is another.
/// That fails while both are busy. [`take_buffer`] completes the choice.
pub fn get_next_buffer(pool: &mut [PoolBuffer; 2], width: u32, height: u32) -> (r: Result<
    NextBuffer,
    BufferError,
>)
    ensures
        match free_buffer(old(pool)@) {
            Some(index) => {
                let buf = old(pool)@[index];
                &&& final(pool)@ == old(pool)@.update(index, fitted(buf, width, height))
                &&& r matches Ok(next)
                &&& next.index == index
                &&& next.released == if fitted(buf, width, height) == buf {
                    nothing_released()
                } else {
                    buf.resources()
                }
                &&& next.create == (fitted(buf, width, height).buffer is None)
            },
            None => r == Err::<NextBuffer, BufferError>(BufferError::NoneFree) && final(pool)@ == old(pool)@,
        },
        pool_wf(old(pool)@) ==> pool_wf(final(pool)@),
        r is Err <==> old(pool)@[0].busy && old(pool)@[1].busy,
        r is Err ==> final(pool)@ == old(pool)@,
        r matches Ok(next) ==> {
            let before = old(pool)@[next.index as int];
            let after = final(pool)@[next.index as int];
            &&& next.index == 0 || (next.index == 1 && old(pool)@[0].busy)
            &&& !before.busy && !after.busy
            &&& final(pool)@[1 - next.index] == old(pool)@[1 - next.index]
            &&& !next.create ==> after.width == width && after.height == height
                && after.buffer is Some
            &&& next.create ==> after.buffer is None
            &&& before.width == width && before.height == height ==> after == before
                && next.released.buffer is None && next.released.mapping is None
                && next.create == (before.buffer is None)
            &&& before.width != width || before.height != height ==> {
                &&& next.create
                &&& next.released.buffer == before.buffer
                &&& next.released.mapping == (match before.data {
                    Some(data) => Some((data, before.size)),
                    None => None,
                })
                &&& after.buffer is None && after.data is None && !after.surface && !after.cairo
                &&& after.width == 0 && after.height == 0 && after.size == 0
            }
        },
{
    let index: usize = if !pool[0].busy {
        0
    } else if !pool[1].busy {
        1
    } else {
        return Err(BufferError::NoneFree);
    };
    let mut buf: PoolBuffer = pool[index];
    let mut released = Released { buffer: None, mapping: None };
    if buf.width != width || buf.height != height {
        released = buf.destroy();
    }
    proof {
        empty_buffer_is_wf();
    }
    pool[index] = buf;
    Ok(NextBuffer { index, released, create: buf.buffer.is_none() })
}

/// A buffer that the compositor is about to read.
pub open spec fn held(buf: PoolBuffer) -> PoolBuffer {
    PoolBuffer { busy: true, ..buf }
}

/// Marks a picked buffer as busy, once it is complete. `made` is how far its making came, where it
/// was still to be made; the buffer stays free where that failed.
pub fn take_buffer(
    pool: &mut [PoolBuffer; 2],
    index: usize,
    width: u32,
    height: u32,
    made: Option<CreateOutcome>,
) -> (r: Result<(), BufferError>)
    requires
        index < 2,
        made is Some ==> has_layout(width, height),
    ensures
        match made {
            None => r is Ok && final(pool)@ == old(pool)@.update(
                index as int,
                held(old(pool)@[index as int]),
            ),
            Some(outcome) => {
                let buf = created(old(pool)@[index as int], width, height, outcome);
                &&& r == create_result(outcome)
                &&& final(pool)@ == old(pool)@.update(
                    index as int,
                    if r is Ok {
                        held(buf)
                    } else {
                        buf
                    },
                )
            },
        },
        r is Ok <==> (made matches Some(outcome) ==> outcome is Ready),
        final(pool)@[index as int].busy == (r is Ok || old(pool)@[index as int].busy),
        final(pool)@[1 - index] == old(pool)@[1 - index],
        made is None ==> final(pool)@[index as int].buffer == old(pool)@[index as int].buffer,
        made matches Some(CreateOutcome::Ready { data, buffer }) ==> {
            let buf = final(pool)@[index as int];
            &&& buf.buffer == Some(buffer) && buf.data == Some(data)
            &&& buf.width == width && buf.height == height && buf.size == width * height * 4
        },
        pool_wf(old(pool)@) && (made is Some <==> old(pool)@[index as int].buffer is None)
            ==> pool_wf(final(pool)@) && (r is Ok ==> {
            let buf = final(pool)@[index as int];
            buf.busy && buf.buffer is Some && buf.surface && buf.cairo
        }),
{
    let mut buf: PoolBuffer = pool[index];
    if let Some(outcome) = made {
        let result = create_buffer(&mut buf, width, height, outcome);
        if result.is_err() {
            pool[index] = buf;
            return result;
        }
    }
    buf.busy = true;
    pool[index] = buf;
    Ok(())
}

/// The pool after the compositor released a buffer: the first one that it belongs to is free.
pub open spec fn after_release(pool: Seq<PoolBuffer>, buffer: u64) -> Seq<PoolBuffer> {
    if pool[0].buffer == Some(buffer) {
        pool.update(0, PoolBuffer { busy: false, ..pool[0] })
    } else if pool[1].buffer == Some(buffer) {
        pool.update(1, PoolBuffer { busy: false, ..pool[1] })
    } else {
        pool
    }
}

/// Frees the buffer that the compositor released.
pub fn release_buffer(pool: &mut [PoolBuffer; 2], buffer: u64)
    ensures
        final(pool)@ == after_release(old(pool)@, buffer),
        forall|i: int|
            #![trigger final(pool)@[i]]
            0 <= i < 2 ==> final(pool)@[i] == (PoolBuffer {
                busy: final(pool)@[i].busy,
                ..old(pool)@[i]
            }),
        forall|i: int|
            #![trigger final(pool)@[i]]
            0 <= i < 2 && old(pool)@[i].buffer != Some(buffer) ==> final(pool)@[i]
                == old(pool)@[i],
        old(pool)@[0].buffer == Some(buffer) ==> !final(pool)@[0].busy && final(pool)@[1]
            == old(pool)@[1],
        old(pool)@[0].buffer != Some(buffer) && old(pool)@[1].buffer == Some(buffer) ==> !final(pool)@[1].busy,
        pool_wf(old(pool)@) ==> pool_wf(final(pool)@),
{
    let mut i: usize = 0;
    while i < 2
        invariant
            i <= 2,
            pool@ == old(pool)@,
            forall|j: int| 0 <= j < i ==> pool@[j].buffer != Some(buffer),
        decreases 2 - i,
    {
        let mut buf: PoolBuffer = pool[i];
        if let Some(b) = buf.buffer {
            if b == buffer {
                buf.busy = false;
                pool[i] = buf;
                return;
            }
        }
        i += 1;
    }
}

/// A buffer that the compositor still reads is not picked, whatever the other one is.
pub proof fn busy_buffer_is_kept(pool: Seq<PoolBuffer>, index: int)
    requires
        pool.len() == 2,
        free_buffer(pool) == Some(index),
    ensures
        0 <= index < 2,
        !pool[index].busy,
        free_buffer(pool.update(index, held(pool[index]))) != Some(index),
{
}

/// A picked buffer that has the right size is used as it is: nothing is given back and nothing is
/// made.
pub proof fn fitting_buffer_is_reused(buf: PoolBuffer)
    requires
        buf.wf(),
        buf.buffer is Some,
    ensures
        fitted(buf, buf.width, buf.height) == buf,
{
}

/// A picked buffer that still has to be made has exactly the size that was asked for afterwards,
/// and enough memory for it.
pub proof fn made_buffer_fits(
    buf: PoolBuffer,
    width: u32,
    height: u32,
    data: usize,
    buffer: u64,
)
    requires
        has_layout(width, height),
    ensures
        created(buf, width, height, CreateOutcome::Ready { data, buffer }).buffer == Some(buffer),
        fitted(
            created(buf, width, height, CreateOutcome::Ready { data, buffer }),
            width,
            height,
        ) == created(buf, width, height, CreateOutcome::Ready { data, buffer }),
        created(buf, width, height, CreateOutcome::Ready { data, buffer }).size == width * height
            * 4,
{
}

/// Once the compositor releases a buffer of the pool there is one to pick, even where both were
/// busy.
pub proof fn released_buffer_is_free(pool: Seq<PoolBuffer>, buffer: u64)
    requires
        pool.len() == 2,
        pool[0].buffer == Some(buffer) || pool[1].buffer == Some(buffer),
    ensures
        free_buffer(after_release(pool, buffer)) is Some,
{
}

/// A buffer is only ever used for a frame of exactly its own size: one that is larger is emptied
/// like one that is smaller, and all that it held is given back.
pub proof fn buffer_of_another_size_is_emptied(buf: PoolBuffer, width: u32, height: u32)
    ensures
        buf.width == width && buf.height == height ==> fitted(buf, width, height) == buf,
        buf.width != width || buf.height != height ==> {
            let after = fitted(buf, width, height);
            &&& after.buffer is None && after.data is None
            &&& !after.surface && !after.cairo && !after.busy
            &&& after.width == 0 && after.height == 0 && after.size == 0
        },
        fitted(buf, width, height).buffer is Some ==> fitted(buf, width, height).width == width
            && fitted(buf, width, height).height == height,
{
}

/// What a buffer gives back is its own: the compositor's buffer, and the whole of its mapping.
pub proof fn resources_are_those_of_the_buffer(buf: PoolBuffer, data: usize)
    ensures
        buf.resources().buffer == buf.buffer,
        buf.data == Some(data) ==> buf.resources().mapping == Some((data, buf.size)),
        buf.data is None ==> buf.resources().mapping is None,
        nothing_released().buffer is None && nothing_released().mapping is None,
{
}

/// The buffer that is picked is free, and is the first one that is; none is picked only while both
/// are busy.
pub proof fn first_free_buffer_is_picked(pool: Seq<PoolBuffer>)
    requires
        pool.len() == 2,
    ensures
        match free_buffer(pool) {
            Some(i) => 0 <= i < 2 && !pool[i].busy && forall|j: int|
                0 <= j < i ==> (#[trigger] pool[j]).busy,
            None => forall|j: int| 0 <= j < 2 ==> (#[trigger] pool[j]).busy,
        },
{
}

/// What is released is the buffer that the compositor named and no other, and nothing of it
/// changes but that it is free.
pub proof fn only_the_named_buffer_is_released(pool: Seq<PoolBuffer>, buffer: u64, i: int)
    requires
        pool.len() == 2,
        0 <= i < 2,
    ensures
        after_release(pool, buffer).len() == 2,
        after_release(pool, buffer)[i] == (PoolBuffer {
            busy: after_release(pool, buffer)[i].busy,
            ..pool[i]
        }),
        pool[i].buffer != Some(buffer) ==> after_release(pool, buffer)[i] == pool[i],
        pool[i].buffer == Some(buffer) && pool[1 - i].buffer != Some(buffer) ==> !after_release(
            pool,
            buffer,
        )[i].busy,
{
}

/// A length of 32 bits keeps its bits when it is taken as a signed number.
pub proof fn signed_numbers_keep_their_bits(n: u32)
    ensures
        i32::MIN <= as_signed(n as int) <= i32::MAX,
        as_signed(n as int) == n || as_signed(n as int) == n - 0x1_0000_0000,
{
}

/// The rows of a buffer fill its memory: each has four bytes for each of its pixels.
pub proof fn rows_fill_the_memory(width: u32, height: u32)
    ensures
        has_layout(width, height) ==> width > 0 && height > 0,
        has_layout(width, height) <==> 0 < height * (width * 4) < 0x1_0000_0000,
{
    assert(height * (width * 4) == width * height * 4) by (nonlinear_arith);
    assert(width * height * 4 > 0 ==> width > 0 && height > 0) by (nonlinear_arith)
        requires
            0 <= width,
            0 <= height,
    ;
}

} // verus!
