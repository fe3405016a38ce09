//! Time intervals the viewer waits on: toast lifetimes and the sidecar save back-off.

use std::time::Duration;
use vstd::prelude::*;

verus! {

/// The value of `Duration::from_millis(ms)`.
pub uninterp spec fn duration_of_millis(ms: u64) -> Duration;

/// Trusted wrapper of `std::time::Duration::from_millis`: the result is the
/// duration of `ms` milliseconds, a value fixed by `ms` alone.
#[verifier::external_body]
fn millis(ms: u64) -> (d: Duration)
    ensures
        d == duration_of_millis(ms),
{
    Duration::from_millis(ms)
}

/// Severity of the status toast shown in the lower-right corner.
#[derive(Clone, Copy, Debug, PartialEq, Eq)]
pub enum ToastKind {
    Info,
    Notice,
    Error,
}

impl ToastKind {
    /// Time until the toast expires on its own: three seconds for information, six
    /// for a notice, and never for an error (it stays until the user closes it).
    pub fn duration(self) -> (r: Option<Duration>)
        ensures
            r == match self {
                ToastKind::Info => Some(duration_of_millis(3000)),
                ToastKind::Notice => Some(duration_of_millis(6000)),
                ToastKind::Error => None::<Duration>,
            },
    {
        match self {
            ToastKind::Info => Some(millis(3000)),
            ToastKind::Notice => Some(millis(6000)),
            ToastKind::Error => None,
        }
    }
}

/// Lifetime of a toast in nanoseconds (none for an error).
pub open spec fn toast_nanos(kind: ToastKind) -> Option<u128> {
    match kind {
        ToastKind::Info => Some(3_000_000_000u128),
        ToastKind::Notice => Some(6_000_000_000u128),
        ToastKind::Error => None,
    }
}

/// What a frame does with the toast on show.
#[derive(Clone, Copy, Debug, PartialEq, Eq, Structural)]
pub enum ToastStep {
    /// Its time is up: remove it.
    Expire,
    /// Still showing: wake again in 500 ms so it goes on time.
    KeepAlive,
    /// An error: it stays until the user closes it.
    Stay,
}

impl ToastKind {
    /// The step for a toast shown `age_nanos` ago.
    pub fn step(self, age_nanos: u128) -> (r: ToastStep)
        ensures
            r == match toast_nanos(self) {
                Some(d) => if age_nanos > d {
                    ToastStep::Expire
                } else {
                    ToastStep::KeepAlive
                },
                None => ToastStep::Stay,
            },
    {
        let life: Option<u128> = match self {
            ToastKind::Info => Some(3_000_000_000u128),
            ToastKind::Notice => Some(6_000_000_000u128),
            ToastKind::Error => None,
        };
        match life {
            Some(d) => if age_nanos > d {
                ToastStep::Expire
            } else {
                ToastStep::KeepAlive
            },
            None => ToastStep::Stay,
        }
    }
}

/// Number of consecutive failed sidecar saves after which retries slow down.
pub const SIDECAR_BACKOFF_AFTER: u32 = 3;

/// Wait before the next sidecar save: 300 ms normally (it collects a burst of
/// labelling into one write), 5 s once three saves in a row have failed.
pub fn sidecar_retry_interval(fail_count: u32) -> (r: Duration)
    ensures
        r == if fail_count >= SIDECAR_BACKOFF_AFTER {
            duration_of_millis(5000)
        } else {
            duration_of_millis(300)
        },
{
    if fail_count >= SIDECAR_BACKOFF_AFTER {
        millis(5000)
    } else {
        millis(300)
    }
}


/// The sidecar retry interval in nanoseconds.
pub open spec fn retry_nanos(fail_count: u32) -> u128 {
    if fail_count >= SIDECAR_BACKOFF_AFTER {
        5_000_000_000
    } else {
        300_000_000
    }
}

/// Saving the marks to the folder's sidecar file: how many saves in a row have failed, and
/// why the last one did. A failure keeps the marks due, so saving is retried.
pub struct SidecarSaver {
    pub fail_count: u32,
    pub error: Option<String>,
}

impl SidecarSaver {
    /// No failure yet.
    pub fn new() -> (s: SidecarSaver)
        ensures
            s.fail_count == 0,
            s.error is None,
    {
        SidecarSaver { fail_count: 0, error: None }
    }

    /// Whether to save now: marks changed and, since the last attempt (`elapsed_nanos`
    /// ago), more than the retry interval has passed.
    pub fn is_due(&self, dirty: bool, elapsed_nanos: u128) -> (r: bool)
        ensures
            r == (dirty && elapsed_nanos > retry_nanos(self.fail_count)),
    {
        let wait: u128 = if self.fail_count >= SIDECAR_BACKOFF_AFTER {
            5_000_000_000
        } else {
            300_000_000
        };
        dirty && elapsed_nanos > wait
    }

    /// A save succeeded: the failure count and reason are cleared.
    pub fn saved(&mut self)
        ensures
            final(self).fail_count == 0,
            final(self).error is None,
    {
        self.fail_count = 0;
        self.error = None;
    }

    /// A save failed with `reason`. Returns whether this is the first failure in a row
    /// (the only one reported by an error toast; later ones show in the status bar).
    pub fn failed(&mut self, reason: String) -> (first: bool)
        requires
            old(self).fail_count < u32::MAX,
        ensures
            final(self).fail_count == old(self).fail_count + 1,
            final(self).error == Some(reason),
            first == (final(self).fail_count == 1),
    {
        self.fail_count = self.fail_count + 1;
        self.error = Some(reason);
        self.fail_count == 1
    }
}

/// The save indicator of the status bar.
#[derive(Clone, Copy, Debug, PartialEq, Eq, Structural)]
pub enum SaveBadge {
    /// The last save failed (shown first, since the marks are then still waiting).
    Failed,
    /// Marks changed and are not saved yet.
    Saving,
    /// Everything is saved.
    Saved,
}

impl SidecarSaver {
    /// The indicator while the marks are `dirty` or not.
    pub fn badge(&self, dirty: bool) -> (b: SaveBadge)
        ensures
            b == (if self.error is Some {
                SaveBadge::Failed
            } else if dirty {
                SaveBadge::Saving
            } else {
                SaveBadge::Saved
            }),
    {
        if self.error.is_some() {
            SaveBadge::Failed
        } else if dirty {
            SaveBadge::Saving
        } else {
            SaveBadge::Saved
        }
    }
}

/// Seconds between two trims of the disk cache during a session.
pub const CACHE_TRIM_PERIOD_SECS: u64 = 120;

/// The periodic cache trim is due once more than two minutes have passed since the last
/// one (`elapsed_nanos` ago).
pub fn cache_trim_due(elapsed_nanos: u128) -> (r: bool)
    ensures
        r == (elapsed_nanos > CACHE_TRIM_PERIOD_SECS * 1_000_000_000),
{
    elapsed_nanos > 120_000_000_000
}

} // verus!
