//! Progress of one transfer and of the whole run.
use vstd::prelude::*;
use std::time::{Duration, Instant};

verus! {

#[verifier::external_type_specification]
#[verifier::external_body]
pub struct ExInstant(Instant);

/// Relies on `Instant::now`: a reading of the monotonic clock.
#[verifier::external_body]
fn clock_now() -> Instant {
    Instant::now()
}

/// Relies on `Instant::elapsed`: the time that has passed since `t` was read.
#[verifier::external_body]
fn elapsed_since(t: &Instant) -> Duration {
    t.elapsed()
}

/// Relies on `Duration::as_millis`: the whole milliseconds of `d`.
#[verifier::external_body]
fn whole_millis(d: &Duration) -> u128 {
    d.as_millis()
}

/// Milliseconds since `t`, saturating at `u64::MAX`.
fn millis_since(t: &Instant) -> u64 {
    let d = elapsed_since(t);
    let ms = whole_millis(&d);
    if ms > u64::MAX as u128 {
        u64::MAX
    } else {
        ms as u64
    }
}

/// `x` capped at `u64::MAX`.
pub open spec fn cap_u64(x: int) -> u64 {
    if x > u64::MAX {
        u64::MAX
    } else if x < 0 {
        0
    } else {
        x as u64
    }
}

/// Average speed in bytes per second after `downloaded` bytes in `elapsed_ms`
/// milliseconds; 0 before any time has passed.
pub open spec fn speed_spec(downloaded: u64, elapsed_ms: u64) -> u64 {
    if elapsed_ms == 0 {
        0
    } else {
        cap_u64((downloaded * 1000) / (elapsed_ms as int))
    }
}

/// Milliseconds still needed for the rest of `total_size` at the average speed so
/// far; 0 while no speed is known, and 0 bytes remain once `downloaded` passes
/// `total_size`.
pub open spec fn eta_spec(total_size: u64, downloaded: u64, elapsed_ms: u64) -> u64 {
    if elapsed_ms == 0 || downloaded == 0 {
        0
    } else {
        let remaining = if downloaded <= total_size {
            total_size - downloaded
        } else {
            0
        };
        cap_u64((remaining * elapsed_ms) / (downloaded as int))
    }
}

/// Bytes done out of the total of one transfer, and when it started.
#[derive(Debug)]
pub struct DownloadStats {
    pub total_size: u64,
    pub downloaded: u64,
    pub start_time: Instant,
}

impl DownloadStats {
    /// Stats for a transfer of `total_size` bytes of which `already_downloaded` are on
    /// disk, started now.
    pub fn new(total_size: u64, already_downloaded: u64) -> (r: Self)
        ensures
            r.total_size == total_size,
            r.downloaded == already_downloaded,
    {
        DownloadStats { total_size, downloaded: already_downloaded, start_time: clock_now() }
    }

    /// Counts `bytes` more as done.
    pub fn update(&mut self, bytes: u64)
        requires
            old(self).downloaded + bytes <= u64::MAX,
        ensures
            final(self).downloaded == old(self).downloaded + bytes,
            final(self).total_size == old(self).total_size,
            final(self).start_time == old(self).start_time,
    {
        self.downloaded = self.downloaded + bytes;
    }

    /// Average speed in bytes per second, `elapsed_ms` after the start.
    pub fn speed_at(&self, elapsed_ms: u64) -> (r: u64)
        ensures
            r == speed_spec(self.downloaded, elapsed_ms),
    {
        if elapsed_ms == 0 {
            return 0;
        }
        let s: u128 = (self.downloaded as u128) * 1000 / (elapsed_ms as u128);
        if s > u64::MAX as u128 {
            u64::MAX
        } else {
            s as u64
        }
    }

    /// Average speed in bytes per second since the start.
    pub fn speed(&self) -> (r: u64)
        ensures
            exists|e: u64| #[trigger] speed_spec(self.downloaded, e) == r,
    {
        let e = millis_since(&self.start_time);
        self.speed_at(e)
    }

    /// Milliseconds still needed at the average speed, `elapsed_ms` after the start.
    pub fn eta_at(&self, elapsed_ms: u64) -> (r: u64)
        ensures
            r == eta_spec(self.total_size, self.downloaded, elapsed_ms),
    {
        if elapsed_ms == 0 || self.downloaded == 0 {
            return 0;
        }
        let remaining: u128 = self.total_size.saturating_sub(self.downloaded) as u128;
        assert(remaining * (elapsed_ms as u128) <= u64::MAX * u64::MAX) by (nonlinear_arith)
            requires
                remaining <= u64::MAX,
                elapsed_ms <= u64::MAX,
        ;
        let t: u128 = remaining * (elapsed_ms as u128) / (self.downloaded as u128);
        if t > u64::MAX as u128 {
            u64::MAX
        } else {
            t as u64
        }
    }

    /// Milliseconds still needed at the average speed since the start.
    pub fn eta(&self) -> (r: u64)
        ensures
            exists|e: u64| #[trigger] eta_spec(self.total_size, self.downloaded, e) == r,
            self.downloaded == 0 ==> r == 0,
    {
        let e = millis_since(&self.start_time);
        self.eta_at(e)
    }
}

/// Counters shared by every job of a run.
#[derive(Debug, Clone, Copy, PartialEq, Eq, Structural)]
pub struct ProgressCounters {
    pub files_total: usize,
    pub files_finished: usize,
    pub bytes_done: u64,
    pub bytes_total: u64,
}

impl ProgressCounters {
    /// No more files finish than were given.
    pub open spec fn wf(&self) -> bool {
        self.files_finished <= self.files_total
    }

    /// Counters for a run of `files_total` files, with nothing done or known yet.
    pub open spec fn new_spec(files_total: usize) -> Self {
        ProgressCounters { files_total, files_finished: 0, bytes_done: 0, bytes_total: 0 }
    }

    /// Counters for a run of `files_total` files, with nothing done or known yet.
    pub fn new(files_total: usize) -> (r: Self)
        ensures
            r.wf(),
            r == Self::new_spec(files_total),
    {
        ProgressCounters { files_total, files_finished: 0, bytes_done: 0, bytes_total: 0 }
    }

    /// Counts `k` more bytes written by some worker (saturating).
    pub fn add_done(&mut self, k: u64)
        ensures
            *final(self) == (ProgressCounters {
                bytes_done: cap_u64(old(self).bytes_done + k),
                ..*old(self)
            }),
    {
        self.bytes_done = self.bytes_done.saturating_add(k);
    }

    /// Adds the size that one job's probe found to the run's total (saturating).
    pub fn add_total(&mut self, k: u64)
        ensures
            *final(self) == (ProgressCounters {
                bytes_total: cap_u64(old(self).bytes_total + k),
                ..*old(self)
            }),
    {
        self.bytes_total = self.bytes_total.saturating_add(k);
    }

    /// Counts one more job as finished, whether it succeeded or failed.
    pub fn finish_file(&mut self)
        requires
            old(self).wf(),
            old(self).files_finished < old(self).files_total,
        ensures
            final(self).wf(),
            *final(self) == (ProgressCounters {
                files_finished: (old(self).files_finished + 1) as usize,
                ..*old(self)
            }),
    {
        self.files_finished = self.files_finished + 1;
    }
}

} // verus!
