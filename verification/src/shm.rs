//! Shared memory files for the display: their names, and how they are made.

use crate::files::{Access, OpenFlags};
use crate::text::from_utf8;
use vstd::prelude::*;
use vstd::string::StringExecFns;
use vstd::utf8::{
    encode_utf8, encode_utf8_decode_utf8, encode_utf8_valid_utf8, is_ascii_chars,
    is_ascii_chars_encode_utf8,
};

verus! {

/// How many names are tried for a shared memory file.
pub const SHM_RETRIES: i32 = 100;

/// What is left of `n` without its `i` lowest groups of five bits.
pub open spec fn without_groups(n: int, i: nat) -> int
    decreases i,
{
    if i == 0 {
        n
    } else {
        without_groups(n, (i - 1) as nat) / 32
    }
}

/// The letter that stands for the five lowest bits of `n`: four of them pick it from `A` to `P`,
/// the fifth makes it small.
pub open spec fn letter(n: int) -> u8 {
    (65 + n % 16 + 32 * (n / 16 % 2)) as u8
}

/// The six letters made of the thirty lowest bits of `nsec`.
pub open spec fn name_letters(nsec: int) -> Seq<u8> {
    Seq::new(6, |i: int| letter(without_groups(nsec, i as nat)))
}

/// The parts of a number that is made of multiples of 32, of 16 and of 1.
proof fn five_bit_parts(n: int, high: int, fifth: int, low: int)
    requires
        n == 32 * high + 16 * fifth + low,
        0 <= fifth < 2,
        0 <= low < 16,
    ensures
        n % 16 == low,
        n / 16 % 2 == fifth,
        n / 32 == high,
{
    assert(n / 16 == 2 * high + fifth);
}

/// The lowest five bits of a number, and what is left without them.
proof fn five_bits(r: i64)
    ensures
        r & 15 == r as int % 16,
        r & 16 == 16 * (r as int / 16 % 2),
        r >> 5 == r as int / 32,
{
    let high = r >> 5;
    let fifth = r & 16;
    let low = r & 15;
    assert(0 <= r & 15 < 16 && (r & 16 == 0 || r & 16 == 16)) by (bit_vector);
    assert(r == 32 * (r >> 5) + (r & 16) + (r & 15)) by (bit_vector);
    if fifth == 0 {
        five_bit_parts(r as int, high as int, 0, low as int);
    } else {
        five_bit_parts(r as int, high as int, 1, low as int);
    }
}

/// Fills `buf` with letters made of a clock's nanoseconds.
pub fn randname(nsec: i64, buf: &mut [u8; 6])
    ensures
        final(buf)@ == name_letters(nsec as int),
        forall|i: int|
            0 <= i < 6 ==> 65 <= #[trigger] final(buf)@[i] <= 80 || 97 <= final(buf)@[i] <= 112,
{
    let mut r: i64 = nsec;
    let mut i: usize = 0;
    while i < 6
        invariant
            i <= 6,
            r == without_groups(nsec as int, i as nat),
            forall|j: int| 0 <= j < i ==> buf@[j] == name_letters(nsec as int)[j],
        decreases 6 - i,
    {
        proof {
            five_bits(r);
        }
        buf[i] = 65 + ((r & 15) as u8) + (((r & 16) * 2) as u8);
        r = r >> 5;
        i += 1;
    }
    assert(buf@ =~= name_letters(nsec as int));
}

/// The name of the shared memory file for a clock's nanoseconds.
pub open spec fn file_name(nsec: int) -> Seq<char> {
    "/wl_shm-"@ + name_letters(nsec).map_values(|b: u8| b as char)
}

/// Every letter of a name is one of `A` to `P`, large or small.
pub proof fn names_hold_letters(nsec: int, i: int)
    requires
        0 <= i < 6,
    ensures
        65 <= name_letters(nsec)[i] <= 80 || 97 <= name_letters(nsec)[i] <= 112,
{
}

/// Two letters are the same only for the same five bits.
proof fn letters_differ(a: int, b: int)
    requires
        letter(a) == letter(b),
    ensures
        a % 32 == b % 32,
{
    assert(a % 32 == a % 16 + 16 * (a / 16 % 2));
    assert(b % 32 == b % 16 + 16 * (b / 16 % 2));
}

/// Numbers with the same name agree in all their groups of bits.
proof fn groups_agree(a: int, b: int, i: nat)
    requires
        i <= 6,
        name_letters(a) == name_letters(b),
        without_groups(a, 6) == without_groups(b, 6),
    ensures
        without_groups(a, i) == without_groups(b, i),
    decreases 6 - i,
{
    if i < 6 {
        groups_agree(a, b, i + 1);
        assert(name_letters(a)[i as int] == letter(without_groups(a, i)));
        assert(name_letters(b)[i as int] == letter(without_groups(b, i)));
        letters_differ(without_groups(a, i), without_groups(b, i));
    }
}

/// Two different times within a second, or any two numbers of thirty bits, have different names.
pub proof fn names_differ(a: int, b: int)
    requires
        0 <= a < 0x4000_0000,
        0 <= b < 0x4000_0000,
        name_letters(a) == name_letters(b),
    ensures
        a == b,
{
    reveal_with_fuel(without_groups, 7);
    groups_agree(a, b, 0);
}

/// The name of the shared memory file for a clock's nanoseconds.
pub fn shm_name(nsec: i64) -> (r: String)
    ensures
        r@ == file_name(nsec as int),
        r@.len() == 14,
        "/wl_shm-"@.is_prefix_of(r@),
{
    let mut name_bytes: [u8; 6] = [0;6];
    randname(nsec, &mut name_bytes);
    let ghost letters = name_letters(nsec as int).map_values(|b: u8| b as char);
    proof {
        assert forall|i: int| 0 <= i < letters.len() implies 0 <= #[trigger] letters[i] as int <= 127 by {
            names_hold_letters(nsec as int, i);
        }
        assert(is_ascii_chars(letters));
        is_ascii_chars_encode_utf8(letters);
        assert(encode_utf8(letters) =~= name_bytes@);
        encode_utf8_valid_utf8(letters);
        encode_utf8_decode_utf8(letters);
    }
    let mut name: String = "/wl_shm-".to_owned();
    match from_utf8(name_bytes.as_slice()) {
        Some(letters) => name.append(letters),
        None => {},
    }
    proof {
        reveal_strlit("/wl_shm-");
        assert(name@.subrange(0, 8) =~= "/wl_shm-"@);
    }
    name
}

/// Reads the constant `libc::EEXIST`, which is 17 on Linux.
#[verifier::external_body]
fn eexist() -> (r: i32)
    ensures
        r == 17,
{
    libc::EEXIST
}

/// Why there is no shared memory file.
#[derive(Debug, Clone, Copy, PartialEq, Eq)]
pub enum ShmError {
    /// A system call failed, with this error number if there is one.
    System(Option<i32>),
    /// Every name that was tried was taken.
    NamesTaken,
}

/// An attempt to create a shared memory file.
#[derive(Debug, Clone, PartialEq, Eq)]
pub struct ShmAttempt {
    pub name: String,
    pub flags: OpenFlags,
    /// Who may use the file.
    pub mode: u32,
}

/// How a shared memory file is opened: for reading and writing, and only where it is new.
pub open spec fn shm_flags() -> OpenFlags {
    OpenFlags {
        access: Access::ReadWrite,
        create: true,
        exclusive: true,
        close_on_exec: false,
        no_controlling_terminal: false,
        nonblocking: false,
    }
}

/// The attempt to make at a clock's nanoseconds. Only its owner may use the file.
pub fn shm_attempt(nsec: i64) -> (r: ShmAttempt)
    ensures
        r.name@ == file_name(nsec as int),
        r.flags == shm_flags(),
        r.flags.access == Access::ReadWrite && r.flags.create && r.flags.exclusive,
        !r.flags.close_on_exec && !r.flags.no_controlling_terminal && !r.flags.nonblocking,
        r.mode == 0o600,
{
    let flags = OpenFlags {
        access: Access::ReadWrite,
        create: true,
        exclusive: true,
        close_on_exec: false,
        no_controlling_terminal: false,
        nonblocking: false,
    };
    ShmAttempt { name: shm_name(nsec), flags, mode: 0o600 }
}

impl ShmError {
    /// What is said of the error; `system` is what the system says of its error.
    pub fn message(self, system: &str) -> (r: String)
        ensures
            r@ == (match self {
                ShmError::System(_) => system@,
                ShmError::NamesTaken => "Failed to create shm file after retries"@,
            }),
    {
        match self {
            ShmError::System(_) => system.to_owned(),
            ShmError::NamesTaken => "Failed to create shm file after retries".to_owned(),
        }
    }
}

/// What to do after an attempt to create a shared memory file.
#[derive(Debug, Clone, PartialEq, Eq)]
pub enum ShmStep {
    /// The file is open: unlink this name, which is its own, and use the descriptor.
    Created { fd: i32, unlink: String },
    /// Try another name: this is the number of names tried so far.
    Retry(i32),
    /// Give up.
    Failed(ShmError),
}

/// What to do after an attempt that follows `tried` others. `fd` is negative where it failed;
/// `os_error` is then the system's error number, if it has one. Only a name that is taken is a
/// reason to try another.
pub fn create_shm_file(
    attempt: ShmAttempt,
    tried: i32,
    fd: i32,
    os_error: Option<i32>,
) -> (r: ShmStep)
    requires
        0 <= tried < SHM_RETRIES,
    ensures
        r == (if fd >= 0 {
            ShmStep::Created { fd, unlink: attempt.name }
        } else if os_error != Some(17i32) {
            ShmStep::Failed(ShmError::System(os_error))
        } else if tried + 1 < SHM_RETRIES {
            ShmStep::Retry((tried + 1) as i32)
        } else {
            ShmStep::Failed(ShmError::NamesTaken)
        }),
        r is Created <==> fd >= 0,
        r matches ShmStep::Retry(n) ==> n == tried + 1 && n < 100 && os_error == Some(17i32),
        fd < 0 && os_error == Some(17i32) && tried < 99 ==> r is Retry,
{
    if fd >= 0 {
        return ShmStep::Created { fd, unlink: attempt.name };
    }
    match os_error {
        Some(errno) => if errno != eexist() {
            return ShmStep::Failed(ShmError::System(os_error));
        },
        None => {
            return ShmStep::Failed(ShmError::System(os_error));
        },
    }
    if tried + 1 < SHM_RETRIES {
        ShmStep::Retry(tried + 1)
    } else {
        ShmStep::Failed(ShmError::NamesTaken)
    }
}

/// A shared memory file that could not be given its size: close it and report the error.
#[derive(Debug, Clone, Copy, PartialEq, Eq)]
pub struct TruncateError {
    pub close: i32,
    pub error: ShmError,
}

/// The outcome of giving the created file `fd` its size, where the `ftruncate` call returned
/// `ret`. `os_error` is the system's error number if it failed and there is one.
pub fn allocate_shm_file(fd: i32, ret: i32, os_error: Option<i32>) -> (r: Result<
    i32,
    TruncateError,
>)
    ensures
        r == (if ret < 0 {
            Err::<i32, TruncateError>(
                TruncateError { close: fd, error: ShmError::System(os_error) },
            )
        } else {
            Ok::<i32, TruncateError>(fd)
        }),
{
    if ret < 0 {
        return Err(TruncateError { close: fd, error: ShmError::System(os_error) });
    }
    Ok(fd)
}

/// What a letter of a name stands for: its place from `A` on, or from `a` on and 16 more.
pub open spec fn letter_value(letter: u8) -> int {
    if letter >= 97 {
        letter - 97 + 16
    } else {
        letter - 65
    }
}

/// A letter stands for the five bits that it was made of.
proof fn letter_stands_for_bits(n: int)
    ensures
        letter_value(letter(n)) == n % 32,
{
    assert(n % 32 == n % 16 + 16 * (n / 16 % 2));
}

/// The letters of a name are the number of thirty bits that it was made of, written in base 32 with
/// the lowest digit first.
pub proof fn name_writes_the_time(nsec: int)
    requires
        0 <= nsec < 0x4000_0000,
    ensures
        ({
            let v = |i: int| letter_value(name_letters(nsec)[i]);
            nsec == v(0) + 32 * (v(1) + 32 * (v(2) + 32 * (v(3) + 32 * (v(4) + 32 * v(5)))))
        }),
        name_letters(nsec).len() == 6,
{
    reveal_with_fuel(without_groups, 7);
    let n0 = nsec;
    let n1 = n0 / 32;
    let n2 = n1 / 32;
    let n3 = n2 / 32;
    let n4 = n3 / 32;
    let n5 = n4 / 32;
    letter_stands_for_bits(n0);
    letter_stands_for_bits(n1);
    letter_stands_for_bits(n2);
    letter_stands_for_bits(n3);
    letter_stands_for_bits(n4);
    letter_stands_for_bits(n5);
    assert(without_groups(nsec, 0) == n0 && without_groups(nsec, 1) == n1 && without_groups(nsec, 2)
        == n2);
    assert(without_groups(nsec, 3) == n3 && without_groups(nsec, 4) == n4 && without_groups(nsec, 5)
        == n5);
    assert(name_letters(nsec)[0] == letter(n0) && name_letters(nsec)[1] == letter(n1));
    assert(name_letters(nsec)[2] == letter(n2) && name_letters(nsec)[3] == letter(n3));
    assert(name_letters(nsec)[4] == letter(n4) && name_letters(nsec)[5] == letter(n5));
    assert(0 <= n5 < 32);
}

/// The name of a file is that of the shared memory of Wayland clients, a dash and the six letters.
pub proof fn file_name_holds_the_letters(nsec: int, i: int)
    requires
        0 <= i < 6,
    ensures
        file_name(nsec).len() == 14,
        file_name(nsec).take(8) == "/wl_shm-"@,
        file_name(nsec)[8 + i] == name_letters(nsec)[i] as char,
{
    reveal_strlit("/wl_shm-");
    assert(file_name(nsec).take(8) =~= "/wl_shm-"@);
}

} // verus!
