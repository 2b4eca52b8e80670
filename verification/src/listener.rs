//! Binding unix sockets whose paths may be longer than a socket address
//! holds: the socket is bound through the descriptor of its open parent
//! directory.

use vstd::prelude::*;
use crate::paths::{file_name, join, path_file_name, path_join};
use crate::text::{i64_to_string, signed_decimal};

verus! {

/// What `Path::parent` gives for `p`.
pub uninterp spec fn path_parent(p: Seq<char>) -> Option<Seq<char>>;

/// std `Path::parent`: the path without its final component, if it has one.
#[verifier::external_body]
fn parent(p: &str) -> (r: Option<String>)
    ensures
        match r {
            Some(d) => path_parent(p@) == Some(d@),
            None => path_parent(p@).is_none(),
        },
{
    std::path::Path::new(p).parent().map(|d| d.to_string_lossy().into_owned())
}

/// Why a socket path cannot be bound.
#[derive(Clone, Copy, Debug, PartialEq, Eq, Structural)]
pub enum ListenerError {
    /// The path is the root directory.
    RootPath,
    /// The path ends in `..`.
    NoFileName,
}

/// The parent directory and the file name of a socket path.
pub fn socket_parts(path: &str) -> (r: Result<(String, String), ListenerError>)
    ensures
        match r {
            Ok((d, n)) => path_parent(path@) == Some(d@) && path_file_name(path@) == Some(n@),
            Err(ListenerError::RootPath) => path_parent(path@).is_none(),
            Err(ListenerError::NoFileName) => path_parent(path@).is_some() && path_file_name(
                path@,
            ).is_none(),
        },
{
    let dir = match parent(path) {
        None => {
            return Err(ListenerError::RootPath);
        },
        Some(d) => d,
    };
    match file_name(path) {
        None => Err(ListenerError::NoFileName),
        Some(n) => Ok((dir, n)),
    }
}

/// The short path of a socket named `name` in the directory open as
/// `parent_fd`: `/proc/self/fd/<parent_fd>/<name>`.
pub fn short_socket_path(parent_fd: i32, name: &str) -> (p: String)
    ensures
        p@ == path_join(path_join("/proc/self/fd"@, signed_decimal(parent_fd as int)), name@),
{
    let fd = i64_to_string(parent_fd as i64);
    let dir = join("/proc/self/fd", fd.as_str());
    join(dir.as_str(), name)
}

} // verus!
