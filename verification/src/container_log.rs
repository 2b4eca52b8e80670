//! The logs of a container: which log drivers it has, each with its own
//! state.

use vstd::prelude::*;
use crate::cri_log::CriLogger;
use crate::journal::JournaldLogger;
use crate::json_log::JsonLogger;

verus! {

/// The kinds of log drivers.
#[derive(Clone, Copy, Debug, PartialEq, Eq, Structural)]
pub enum LogDriverType {
    /// The CRI log format.
    ContainerRuntimeInterface,
    /// The systemd journal.
    Journald,
    /// JSON lines.
    Json,
}

/// A requested log driver: its kind, its file, and its size limit in bytes,
/// 0 for none.
pub struct LogDriverRequest {
    pub typ: LogDriverType,
    pub path: String,
    pub max_size: u64,
}

/// The size limit of a requested driver: none for 0.
pub open spec fn size_limit(max_size: u64) -> Option<usize> {
    if max_size > 0 {
        Some(max_size as usize)
    } else {
        None
    }
}

/// A log driver with its state.
pub enum LogDriver {
    ContainerRuntimeInterface(CriLogger),
    Journald(JournaldLogger),
    Json(JsonLogger),
}

/// The kind of a driver.
pub open spec fn driver_type(d: LogDriver) -> LogDriverType {
    match d {
        LogDriver::ContainerRuntimeInterface(_) => LogDriverType::ContainerRuntimeInterface,
        LogDriver::Journald(_) => LogDriverType::Journald,
        LogDriver::Json(_) => LogDriverType::Json,
    }
}

/// A driver is what `r` requests: its kind, and for a file driver its file,
/// its size limit and an empty count.
pub open spec fn driver_matches(d: LogDriver, r: LogDriverRequest) -> bool {
    &&& driver_type(d) == r.typ
    &&& match d {
        LogDriver::ContainerRuntimeInterface(l) => l.spec_path() == r.path@ && l.spec_max_log_size()
            == size_limit(r.max_size) && l.spec_bytes_written() == 0,
        LogDriver::Json(l) => l.spec_path() == r.path@ && l.spec_max_log_size() == size_limit(r.max_size)
            && l.spec_bytes_written() == 0,
        LogDriver::Journald(_) => true,
    }
}

/// The log drivers of a container.
pub struct ContainerLog {
    drivers: Vec<LogDriver>,
}

impl ContainerLog {
    /// The drivers, in order.
    pub closed spec fn spec_drivers(&self) -> Seq<LogDriver> {
        self.drivers@
    }

    /// A container log without drivers.
    pub fn new() -> (l: Self)
        ensures
            l.spec_drivers().len() == 0,
    {
        ContainerLog { drivers: Vec::new() }
    }

    /// Whether any driver is configured.
    pub fn has_drivers(&self) -> (b: bool)
        ensures
            b == (self.spec_drivers().len() > 0),
    {
        self.drivers.len() > 0
    }

    /// The drivers of the requests, in order.
    pub fn from(requests: &Vec<LogDriverRequest>) -> (l: Self)
        ensures
            l.spec_drivers().len() == requests@.len(),
            forall|i: int| 0 <= i < requests@.len() ==> #[trigger] driver_matches(
                l.spec_drivers()[i],
                requests@[i],
            ),
    {
        let mut drivers: Vec<LogDriver> = Vec::new();
        let mut i: usize = 0;
        while i < requests.len()
            invariant
                i <= requests@.len(),
                drivers@.len() == i,
                forall|j: int| 0 <= j < i ==> #[trigger] driver_matches(drivers@[j], requests@[j]),
            decreases requests.len() - i,
        {
            let r = &requests[i];
            let limit: Option<usize> = if r.max_size > 0 {
                Some(r.max_size as usize)
            } else {
                None
            };
            let d = match r.typ {
                LogDriverType::ContainerRuntimeInterface => {
                    match CriLogger::new(r.path.as_str(), limit) {
                        Ok(l) => LogDriver::ContainerRuntimeInterface(l),
                        Err(()) => {
                            proof {
                                assert(false);
                            }
                            return ContainerLog { drivers };
                        },
                    }
                },
                LogDriverType::Json => {
                    match JsonLogger::new(r.path.as_str(), limit) {
                        Ok(l) => LogDriver::Json(l),
                        Err(()) => {
                            proof {
                                assert(false);
                            }
                            return ContainerLog { drivers };
                        },
                    }
                },
                LogDriverType::Journald => {
                    match JournaldLogger::new(limit) {
                        Ok(l) => LogDriver::Journald(l),
                        Err(_) => {
                            proof {
                                assert(false);
                            }
                            return ContainerLog { drivers };
                        },
                    }
                },
            };
            drivers.push(d);
            i = i + 1;
        }
        ContainerLog { drivers }
    }

    /// The drivers, in order.
    pub fn drivers(&self) -> (d: &Vec<LogDriver>)
        ensures
            d@ == self.spec_drivers(),
    {
        &self.drivers
    }
}

} // verus!
