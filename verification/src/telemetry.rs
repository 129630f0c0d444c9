//! Telemetry records: the events that can be logged and the cleaning
//! policy of the log directory.  Clock reads, serialization and the
//! directory listing are the caller's concern; the selection of what to
//! delete is decided here.

use vstd::prelude::*;
use crate::strutil::{seq_starts_with, seq_ends_with, str_starts_with, str_ends_with};

verus! {

#[derive(Debug, PartialEq, Eq, Structural)]
pub enum TelemetryMode {
    On,
    Off,
}

/// One loggable event.
#[derive(Debug)]
pub enum TelemetryEvent {
    RustcRun { duration_ms: u64, exit_code: i32, errors: Option<Vec<String>> },
    ToolchainUpdate { toolchain: String, success: bool },
    TargetAdd { toolchain: String, target: String, success: bool },
}

pub const MAX_TELEMETRY_FILES: usize = 100;

/// The telemetry log directory.
#[derive(Debug)]
pub struct Telemetry {
    pub telemetry_dir: String,
}

impl Telemetry {
    pub fn new(telemetry_dir: String) -> (r: Telemetry)
        ensures
            r.telemetry_dir@ == telemetry_dir@,
    {
        Telemetry { telemetry_dir }
    }

    /// Which log files a cleaning pass deletes: among the listed names
    /// that look like logs, the first ones in the listing's order, so
    /// many that one fewer than the cap remains.  The caller lists the
    /// directory, oldest first, and removes what is returned.
    pub fn files_to_clean(&self, listing: &Vec<String>) -> (r: Vec<String>)
        ensures
            ({
                let logs = listing@.map_values(|s: String| s@).filter(
                    |n: Seq<char>| seq_starts_with(n, "log"@) && seq_ends_with(n, "json"@),
                );
                if logs.len() < MAX_TELEMETRY_FILES {
                    r@.len() == 0
                } else {
                    r@.len() == logs.len() - MAX_TELEMETRY_FILES + 1
                        && forall|i: int| 0 <= i < r@.len() ==> #[trigger] r@[i]@ == logs[i]
                }
            }),
    {
        let ghost logsv = listing@.map_values(|s: String| s@).filter(
            |n: Seq<char>| seq_starts_with(n, "log"@) && seq_ends_with(n, "json"@),
        );
        let mut logs: Vec<String> = Vec::new();
        let mut i: usize = 0;
        while i < listing.len()
            invariant
                i <= listing@.len(),
                logsv == listing@.map_values(|s: String| s@).filter(
                    |n: Seq<char>| seq_starts_with(n, "log"@) && seq_ends_with(n, "json"@),
                ),
                logs@.map_values(|s: String| s@) == listing@.subrange(0, i as int)
                    .map_values(|s: String| s@).filter(
                    |n: Seq<char>| seq_starts_with(n, "log"@) && seq_ends_with(n, "json"@),
                ),
            decreases listing@.len() - i,
    {
            let name = &listing[i];
            let is_log = str_starts_with(name.as_str(), "log")
                && str_ends_with(name.as_str(), "json");
            proof {
                reveal(Seq::filter);
                let pred = |n: Seq<char>| seq_starts_with(n, "log"@) && seq_ends_with(n, "json"@);
                let mapped_i1 = listing@.subrange(0, i + 1).map_values(|s: String| s@);
                let mapped_i = listing@.subrange(0, i as int).map_values(|s: String| s@);
                assert(mapped_i1.drop_last() =~= mapped_i) by {
                    assert forall|j: int| 0 <= j < mapped_i.len()
                        implies mapped_i1.drop_last()[j] == mapped_i[j] by {
                        assert(mapped_i1[j] == listing@.subrange(0, i + 1)[j]@);
                        assert(mapped_i[j] == listing@.subrange(0, i as int)[j]@);
                    }
                }
                assert(mapped_i1.last() == listing@.subrange(0, i + 1)[i as int]@);
                assert(listing@.subrange(0, i + 1)[i as int] == listing@[i as int]);
                assert(mapped_i1.filter(pred) == if pred(listing@[i as int]@) {
                    mapped_i.filter(pred).push(listing@[i as int]@)
                } else {
                    mapped_i.filter(pred)
                });
                assert(is_log == pred(listing@[i as int]@));
            }
            if is_log {
                let ghost before = logs@;
                logs.push(name.clone());
                proof {
                    let m = logs@.map_values(|s: String| s@);
                    let bm = before.map_values(|s: String| s@);
                    assert forall|j: int| 0 <= j < m.len()
                        implies m[j] == bm.push(listing@[i as int]@)[j] by {
                        assert(m[j] == logs@[j]@);
                        if j < before.len() {
                            assert(bm[j] == before[j]@);
                        }
                    }
                    assert(m =~= bm.push(listing@[i as int]@));
                }
            }
            i += 1;
        }
        proof {
            assert(listing@.subrange(0, listing@.len() as int) =~= listing@);
        }
        if logs.len() < MAX_TELEMETRY_FILES {
            return Vec::new();
        }
        let dl = logs.len() - MAX_TELEMETRY_FILES + 1;
        let mut r: Vec<String> = Vec::new();
        let mut i: usize = 0;
        while i < dl
            invariant
                i <= dl,
                dl == logs@.len() - MAX_TELEMETRY_FILES + 1,
                dl <= logs@.len(),
                logs@.map_values(|s: String| s@) == logsv,
                r@.len() == i,
                forall|j: int| 0 <= j < i ==> #[trigger] r@[j]@ == logsv[j],
            decreases dl - i,
        {
            r.push(logs[i].clone());
            proof {
                assert(logsv[i as int] == logs@[i as int]@);
            }
            i += 1;
        }
        r
    }
}

} // verus!
