//! The guest-visible query for a preopened directory's name: given the kind
//! of the file-descriptor's inode, the inode's name, and the size of the
//! guest buffer, decide the status code and the exact bytes to copy into
//! the buffer.  The surrounding runtime owns the descriptor table and the
//! guest memory; it resolves the descriptor to an inode and performs the
//! copy.

use vstd::prelude::*;

verus! {

/// The kinds an inode can have; only directories (and the root) carry a
/// preopened directory name.
#[derive(Clone, Copy, PartialEq, Eq, Structural, Debug)]
pub enum InodeKind {
    Dir,
    Root,
    Symlink,
    Buffer,
    File,
    Socket,
    Pipe,
    EventNotifications,
}

/// The status codes this query can produce.
#[derive(Clone, Copy, PartialEq, Eq, Structural, Debug)]
pub enum Errno {
    /// The name, NUL-terminated, fits the guest buffer and is returned.
    Success,
    /// The guest buffer is too small for the name plus its NUL terminator.
    Overflow,
    /// The descriptor does not refer to a directory.
    Notdir,
}

/// Decides the answer to a preopened-directory-name query.
///
/// For a directory (or the root), when the name and its NUL terminator fit
/// the guest buffer of `path_len` bytes, the result is `Success` together
/// with the bytes to write: the name followed by a single NUL.  A buffer
/// that cannot hold the terminated name yields `Overflow`; any other inode
/// kind yields `Notdir`.  Nothing is ever written in the failure cases.
pub fn fd_prestat_dir_name(kind: &InodeKind, name: &Vec<u8>, path_len: u64) -> (r: (
    Errno,
    Option<Vec<u8>>,
))
    ensures
        (kind is Dir || kind is Root) && name@.len() < path_len ==> r.0 is Success && (r.1
            matches Some(b) && b@ == name@.push(0u8)),
        (kind is Dir || kind is Root) && name@.len() >= path_len ==> r.0 is Overflow
            && r.1 is None,
        !(kind is Dir || kind is Root) ==> r.0 is Notdir && r.1 is None,
{
    match kind {
        InodeKind::Dir | InodeKind::Root => {
            if (name.len() as u64) < path_len {
                let mut out: Vec<u8> = Vec::new();
                let mut i: usize = 0;
                while i < name.len()
                    invariant
                        i <= name@.len(),
                        out@ == name@.take(i as int),
                    decreases name@.len() - i,
                {
                    out.push(name[i]);
                    i = i + 1;
                    proof {
                        assert(out@ =~= name@.take(i as int));
                    }
                }
                proof {
                    assert(out@ =~= name@);
                }
                out.push(0u8);
                (Errno::Success, Some(out))
            } else {
                (Errno::Overflow, None)
            }
        },
        _ => (Errno::Notdir, None),
    }
}

} // verus!
