//! Setting up the monitor process itself.

use vstd::prelude::*;

verus! {

/// The file that adjusts the OOM score of the monitor.
pub const OOM_SCORE_ADJ_PATH: &'static str = "/proc/self/oom_score_adj";

/// The OOM score adjustment of the monitor: it should be the last process
/// the kernel kills.
pub const OOM_SCORE_ADJ: &'static str = "-1000";

/// The kinds of I/O errors that the setup tells apart.
#[derive(Clone, Copy, Debug, PartialEq, Eq, Structural)]
pub enum IoErrorKind {
    /// The process lacks the privileges.
    PermissionDenied,
    /// Any other error.
    Other,
}

/// Why adjusting the OOM score failed.
#[derive(Clone, Copy, Debug, PartialEq, Eq, Structural)]
pub enum InitError {
    /// The OOM score file could not be created.
    CreateFile,
    /// The score could not be written.
    Write,
}

/// The outcome of adjusting the OOM score, which is best effort: the file
/// must be created; a write refused for lack of privileges is fine, other
/// write errors fail. The write is only made where the file was created.
pub fn oom_score_outcome(created: Result<(), IoErrorKind>, written: Result<(), IoErrorKind>) -> (r: Result<(), InitError>)
    ensures
        r == match created {
            Err(_) => Err::<(), InitError>(InitError::CreateFile),
            Ok(()) => match written {
                Ok(()) => Ok::<(), InitError>(()),
                Err(IoErrorKind::PermissionDenied) => Ok::<(), InitError>(()),
                Err(IoErrorKind::Other) => Err::<(), InitError>(InitError::Write),
            },
        },
{
    match created {
        Err(_) => Err(InitError::CreateFile),
        Ok(()) => match written {
            Ok(()) => Ok(()),
            Err(IoErrorKind::PermissionDenied) => Ok(()),
            Err(IoErrorKind::Other) => Err(InitError::Write),
        },
    }
}

} // verus!
