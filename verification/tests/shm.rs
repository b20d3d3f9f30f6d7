use wayland_client::protocol::wl_shm::Format;
use wl_showkeys::files::Access;
use wl_showkeys::pool::{
    buffer_layout, create_buffer, get_next_buffer, release_buffer, take_buffer, BufferError,
    CreateOutcome, PoolBuffer, Released,
};
use wl_showkeys::shm::{
    allocate_shm_file, create_shm_file, randname, shm_attempt, shm_name, ShmError, ShmStep,
    TruncateError,
};

#[test]
fn names_are_made_of_bits() {
    let mut buf = [0u8; 6];
    randname(0, &mut buf);
    assert_eq!(&buf, b"AAAAAA");
    randname(31, &mut buf);
    assert_eq!(&buf, b"pAAAAA");
    randname(123_456_789, &mut buf);
    let mut r: i64 = 123_456_789;
    for b in buf {
        assert_eq!(b, b'A' + ((r & 15) as u8) + (((r & 16) * 2) as u8));
        r >>= 5;
    }
}

#[test]
fn names_of_different_times_differ() {
    assert_ne!(shm_name(1), shm_name(2));
    assert_ne!(shm_name(0), shm_name(999_999_999));
}

#[test]
fn file_names_have_a_prefix() {
    assert_eq!(shm_name(0), "/wl_shm-AAAAAA");
    assert_eq!(shm_name(1 + 16 * 32), "/wl_shm-BaAAAA");
    assert_eq!(shm_name(-1), "/wl_shm-pppppp");
}

#[test]
fn attempt_makes_a_new_private_file() {
    let attempt = shm_attempt(31);
    assert_eq!(attempt.name, "/wl_shm-pAAAAA");
    assert_eq!(attempt.mode, 0o600);
    assert_eq!(attempt.flags.access, Access::ReadWrite);
    assert!(attempt.flags.create && attempt.flags.exclusive);
    assert!(!attempt.flags.close_on_exec && !attempt.flags.nonblocking);
    assert!(!attempt.flags.no_controlling_terminal);
}

#[test]
fn buffer_errors_are_described() {
    assert_eq!(BufferError::NoneFree.message("x"), "No free buffers available");
    assert_eq!(
        BufferError::NoFile(ShmError::NamesTaken).message("x"),
        "Failed to create shm file after retries"
    );
    assert_eq!(BufferError::NoFile(ShmError::System(Some(13))).message("denied"), "denied");
    assert_eq!(BufferError::NotMapped(12).message("no memory"), "no memory");
    assert_eq!(BufferError::NotDrawable.message("bad stride"), "bad stride");
    assert_eq!(
        BufferError::NoneFree.report("x"),
        "Failed to get buffer: No free buffers available"
    );
    assert_eq!(BufferError::NotMapped(12).report("no memory"), "Failed to get buffer: no memory");
}

#[test]
fn created_file_is_used() {
    assert_eq!(
        create_shm_file(shm_attempt(0), 0, 5, None),
        ShmStep::Created { fd: 5, unlink: "/wl_shm-AAAAAA".to_string() }
    );
    assert_eq!(
        create_shm_file(shm_attempt(31), 99, 0, Some(17)),
        ShmStep::Created { fd: 0, unlink: "/wl_shm-pAAAAA".to_string() }
    );
}

#[test]
fn taken_name_is_followed_by_another() {
    assert_eq!(create_shm_file(shm_attempt(7), 0, -1, Some(libc::EEXIST)), ShmStep::Retry(1));
    assert_eq!(create_shm_file(shm_attempt(7), 98, -1, Some(libc::EEXIST)), ShmStep::Retry(99));
    assert_eq!(
        create_shm_file(shm_attempt(7), 99, -1, Some(libc::EEXIST)),
        ShmStep::Failed(ShmError::NamesTaken)
    );
}

#[test]
fn other_errors_end_the_search() {
    assert_eq!(create_shm_file(shm_attempt(7), 0, -1, Some(13)), ShmStep::Failed(ShmError::System(Some(13))));
    assert_eq!(create_shm_file(shm_attempt(7), 0, -1, None), ShmStep::Failed(ShmError::System(None)));
}

#[test]
fn file_without_its_size_is_closed() {
    assert_eq!(allocate_shm_file(5, 0, None), Ok(5));
    assert_eq!(
        allocate_shm_file(5, -1, Some(28)),
        Err(TruncateError { close: 5, error: ShmError::System(Some(28)) })
    );
}

#[test]
fn pixels_have_four_bytes() {
    let layout = buffer_layout(10, 3);
    assert_eq!(layout.size, 120);
    assert_eq!(layout.pool_size, 120);
    assert_eq!(layout.width, 10);
    assert_eq!(layout.height, 3);
    assert_eq!(layout.stride, 40);
    assert_eq!(layout.offset, 0);
    assert_eq!(layout.format, u32::from(Format::Argb8888));
    assert_eq!(layout.format, 0);
}

#[test]
fn huge_layouts_wrap() {
    let layout = buffer_layout(0x3fff_ffff, 1);
    assert_eq!(layout.size, 0xffff_fffc);
    assert_eq!(layout.pool_size, -4);
    assert_eq!(layout.stride, -4);
}

#[test]
fn first_buffer_is_made_and_taken() {
    let mut pool = [PoolBuffer::new(), PoolBuffer::new()];
    let next = get_next_buffer(&mut pool, 8, 4).unwrap();
    assert_eq!(next.index, 0);
    assert!(next.create);
    assert_eq!(next.released, Released { buffer: None, mapping: None });
    let made = CreateOutcome::Ready { data: 0x1000, buffer: 21 };
    assert_eq!(take_buffer(&mut pool, 0, 8, 4, Some(made)), Ok(()));
    assert!(pool[0].busy && pool[0].surface && pool[0].cairo);
    assert_eq!(pool[0].buffer, Some(21));
    assert_eq!(pool[0].data, Some(0x1000));
    assert_eq!((pool[0].width, pool[0].height, pool[0].size), (8, 4, 128));
    assert_eq!(pool[1], PoolBuffer::new());
}

#[test]
fn busy_buffers_are_left_alone() {
    let mut pool = [PoolBuffer::new(), PoolBuffer::new()];
    for (i, id) in [(0usize, 21u64), (1, 22)] {
        let next = get_next_buffer(&mut pool, 8, 4).unwrap();
        assert_eq!(next.index, i);
        let made = CreateOutcome::Ready { data: 0x1000, buffer: id };
        assert_eq!(take_buffer(&mut pool, i, 8, 4, Some(made)), Ok(()));
    }
    assert_eq!(get_next_buffer(&mut pool, 8, 4), Err(BufferError::NoneFree));
    release_buffer(&mut pool, 99);
    assert_eq!(get_next_buffer(&mut pool, 8, 4), Err(BufferError::NoneFree));
    release_buffer(&mut pool, 22);
    let next = get_next_buffer(&mut pool, 8, 4).unwrap();
    assert_eq!(next.index, 1);
    assert!(!next.create);
    assert_eq!(take_buffer(&mut pool, 1, 8, 4, None), Ok(()));
    assert!(pool[1].busy);
}

#[test]
fn buffer_of_another_size_is_replaced() {
    let mut pool = [PoolBuffer::new(), PoolBuffer::new()];
    let made = CreateOutcome::Ready { data: 0x1000, buffer: 21 };
    get_next_buffer(&mut pool, 8, 4).unwrap();
    take_buffer(&mut pool, 0, 8, 4, Some(made)).unwrap();
    release_buffer(&mut pool, 21);
    let next = get_next_buffer(&mut pool, 9, 4).unwrap();
    assert_eq!(next.index, 0);
    assert!(next.create);
    assert_eq!(next.released, Released { buffer: Some(21), mapping: Some((0x1000, 128)) });
    assert_eq!(pool[0], PoolBuffer::new());
}

#[test]
fn buffer_that_cannot_be_made_stays_free() {
    let mut pool = [PoolBuffer::new(), PoolBuffer::new()];
    let failures = [
        (CreateOutcome::NoFile(ShmError::NamesTaken), BufferError::NoFile(ShmError::NamesTaken)),
        (CreateOutcome::NotMapped(12), BufferError::NotMapped(12)),
        (CreateOutcome::NotDrawable(0x2000), BufferError::NotDrawable),
    ];
    for (outcome, error) in failures {
        assert_eq!(take_buffer(&mut pool, 0, 8, 4, Some(outcome)), Err(error));
        assert!(!pool[0].busy);
        assert_eq!(pool[0].buffer, None);
    }
    assert_eq!(pool[0].data, Some(0x2000));
    assert_eq!((pool[0].width, pool[0].height, pool[0].size), (8, 4, 128));
}

#[test]
fn destroyed_buffer_gives_all_back() {
    let mut buf = PoolBuffer::new();
    create_buffer(&mut buf, 2, 2, CreateOutcome::Ready { data: 7, buffer: 3 }).unwrap();
    assert_eq!(buf.destroy(), Released { buffer: Some(3), mapping: Some((7, 16)) });
    assert_eq!(buf, PoolBuffer::new());
    assert_eq!(buf.destroy(), Released { buffer: None, mapping: None });
}
