use module_cache::{fd_prestat_dir_name, Errno, InodeKind};

#[test]
fn dir_name_fits_buffer() {
    let name = b"dir".to_vec();
    let (errno, written) = fd_prestat_dir_name(&InodeKind::Dir, &name, 4);
    assert_eq!(errno, Errno::Success);
    assert_eq!(written, Some(vec![b'd', b'i', b'r', 0]));
}

#[test]
fn root_name_fits_buffer() {
    let name = b"/".to_vec();
    let (errno, written) = fd_prestat_dir_name(&InodeKind::Root, &name, 16);
    assert_eq!(errno, Errno::Success);
    assert_eq!(written, Some(vec![b'/', 0]));
}

#[test]
fn buffer_too_small_overflows() {
    // The buffer must also hold the NUL terminator, so a buffer exactly as
    // long as the name is too small.
    let name = b"dir".to_vec();
    let (errno, written) = fd_prestat_dir_name(&InodeKind::Dir, &name, 3);
    assert_eq!(errno, Errno::Overflow);
    assert_eq!(written, None);
}

#[test]
fn non_directory_is_rejected() {
    let name = b"file".to_vec();
    for kind in [
        InodeKind::Symlink,
        InodeKind::Buffer,
        InodeKind::File,
        InodeKind::Socket,
        InodeKind::Pipe,
        InodeKind::EventNotifications,
    ] {
        let (errno, written) = fd_prestat_dir_name(&kind, &name, 64);
        assert_eq!(errno, Errno::Notdir);
        assert_eq!(written, None);
    }
}
