use file_downloader::job::{DownloadJob, JobAction, JobError, JobEvent, JobState};
use file_downloader::limiter::{pacing_delay_ms, BandwidthLimiter};
use file_downloader::range::{partition_ranges, ByteRange};
use file_downloader::scheduler::JobScheduler;
use file_downloader::strategy::{
    probe_from_headers, resolve_resume, select_strategy, ProbeResult, ResumeOutcome,
    TransferStrategy,
};
use file_downloader::worker::{ChunkError, ChunkWorker};
use file_downloader::config::{AddressFamily, ConfigError, DownloadConfig};

fn br(start: u64, end: u64) -> ByteRange {
    ByteRange { start, end }
}

fn assert_tiles(ranges: &[ByteRange], base: u64, total: u64) {
    assert_eq!(ranges[0].start, base);
    assert_eq!(ranges[ranges.len() - 1].end, total - 1);
    for w in ranges.windows(2) {
        assert!(w[0].start <= w[0].end);
        assert_eq!(w[0].end + 1, w[1].start);
    }
}

#[test]
fn partition_splits_evenly_with_remainder_in_last() {
    let r = partition_ranges(0, 10, 3);
    assert_eq!(r, vec![br(0, 2), br(3, 5), br(6, 9)]);
    assert_tiles(&r, 0, 10);
}

#[test]
fn partition_from_nonzero_base() {
    let r = partition_ranges(5, 17, 4);
    assert_eq!(r, vec![br(5, 7), br(8, 10), br(11, 13), br(14, 16)]);
}

#[test]
fn partition_one_range_and_one_byte_ranges() {
    assert_eq!(partition_ranges(0, 1, 1), vec![br(0, 0)]);
    assert_eq!(partition_ranges(7, 100, 1), vec![br(7, 99)]);
    let r = partition_ranges(0, 4, 4);
    assert_eq!(r, vec![br(0, 0), br(1, 1), br(2, 2), br(3, 3)]);
}

#[test]
fn partition_tiles_for_many_arguments() {
    for total in 1u64..40 {
        for base in 0..total {
            for n in 1..=(total - base) as usize {
                let r = partition_ranges(base, total, n);
                assert_eq!(r.len(), n);
                assert_tiles(&r, base, total);
            }
        }
    }
}

#[test]
fn partition_last_range_absorbs_remainder() {
    let r = partition_ranges(0, 10_000_004, 5);
    assert_eq!(r.len(), 5);
    for x in &r[..4] {
        assert_eq!(x.end - x.start + 1, 2_000_000);
    }
    assert_eq!(r[4], br(8_000_000, 10_000_003));
    assert_eq!(r[4].end - r[4].start + 1, 2_000_004);
}

fn probe(total_size: u64, supports_ranges: bool) -> ProbeResult {
    ProbeResult { total_size, supports_ranges }
}

#[test]
fn strategy_unknown_size_streams_from_disk_length() {
    let s = select_strategy(probe(0, true), false, 1_000_000, 4, 0);
    assert!(matches!(s, TransferStrategy::SingleStream { from: 0 }));
    let s = select_strategy(probe(0, true), true, 1_000_000, 4, 123);
    assert!(matches!(s, TransferStrategy::SingleStream { from: 123 }));
}

#[test]
fn strategy_resume_is_single_stream_even_with_ranges() {
    let s = select_strategy(probe(10_000_000, true), true, 1_000_000, 4, 500);
    assert!(matches!(s, TransferStrategy::SingleStream { from: 500 }));
}

#[test]
fn strategy_without_range_support_is_single_stream() {
    let s = select_strategy(probe(10_000_000, false), false, 1_000_000, 4, 0);
    assert!(matches!(s, TransferStrategy::SingleStream { from: 0 }));
}

#[test]
fn strategy_small_file_is_single_stream() {
    let s = select_strategy(probe(1_000_000, true), false, 1_000_000, 4, 0);
    assert!(matches!(s, TransferStrategy::SingleStream { from: 0 }));
}

#[test]
fn strategy_range_capable_server_gets_four_ranges() {
    let s = select_strategy(probe(10_000_000, true), false, 1_000_000, 4, 0);
    match s {
        TransferStrategy::MultiStream { ranges } => {
            assert_eq!(ranges.len(), 4);
            assert_eq!(ranges, partition_ranges(0, 10_000_000, 4));
            assert_eq!(ranges[3], br(7_500_000, 9_999_999));
        }
        _ => panic!("expected several streams"),
    }
}

#[test]
fn strategy_stream_count_limited_by_chunks() {
    // 2.5 chunks: at most 3 ranges although 8 are allowed.
    let s = select_strategy(probe(2_500, true), false, 1_000, 8, 0);
    match s {
        TransferStrategy::MultiStream { ranges } => {
            assert_eq!(ranges, vec![br(0, 832), br(833, 1665), br(1666, 2499)]);
        }
        _ => panic!("expected several streams"),
    }
}

#[test]
fn strategy_never_more_ranges_than_bytes() {
    let s = select_strategy(probe(3, true), false, 1, 10, 0);
    match s {
        TransferStrategy::MultiStream { ranges } => {
            assert_eq!(ranges, vec![br(0, 0), br(1, 1), br(2, 2)]);
        }
        _ => panic!("expected several streams"),
    }
}

#[test]
fn strategy_ten_mebibytes_in_two_mebibyte_chunks() {
    let total = 10_485_760;
    let s = select_strategy(probe(total, true), false, 2_097_152, 4, 0);
    match s {
        TransferStrategy::MultiStream { ranges } => {
            assert_eq!(ranges.len(), 4);
            assert_tiles(&ranges, 0, total);
            let sum: u64 = ranges.iter().map(|r| r.end - r.start + 1).sum();
            assert_eq!(sum, 10_485_760);
        }
        _ => panic!("expected several streams"),
    }
}

#[test]
fn resume_partial_file_continues_from_its_length() {
    let r = resolve_resume(true, Some(500), 1000);
    assert_eq!(r, ResumeOutcome::Start { already_downloaded: 500, truncate: false });
    let s = select_strategy(probe(1000, true), true, 100, 4, 500);
    assert!(matches!(s, TransferStrategy::SingleStream { from: 500 }));
}

#[test]
fn resume_complete_file_needs_no_transfer() {
    assert_eq!(resolve_resume(true, Some(1000), 1000), ResumeOutcome::AlreadyComplete);
    assert_eq!(resolve_resume(true, Some(1200), 1000), ResumeOutcome::AlreadyComplete);
}

#[test]
fn resume_edge_cases() {
    assert_eq!(
        resolve_resume(false, Some(700), 1000),
        ResumeOutcome::Start { already_downloaded: 0, truncate: true }
    );
    assert_eq!(
        resolve_resume(true, None, 1000),
        ResumeOutcome::Start { already_downloaded: 0, truncate: false }
    );
    assert_eq!(
        resolve_resume(true, Some(50), 0),
        ResumeOutcome::Start { already_downloaded: 50, truncate: false }
    );
}

#[test]
fn probe_reads_headers() {
    assert_eq!(probe_from_headers(Some("1000"), Some("bytes")), probe(1000, true));
    assert_eq!(probe_from_headers(Some("+12"), Some("none")), probe(12, false));
    assert_eq!(probe_from_headers(Some("12a"), None), probe(0, false));
    assert_eq!(probe_from_headers(None, Some("Bytes")), probe(0, false));
    assert_eq!(probe_from_headers(Some("18446744073709551616"), Some("bytes")), probe(0, true));
    assert_eq!(
        probe_from_headers(Some("18446744073709551615"), None),
        probe(u64::MAX, false)
    );
}

#[test]
fn pacing_delay_values() {
    assert_eq!(pacing_delay_ms(0, 5_000_000, 0), 0);
    assert_eq!(pacing_delay_ms(1000, 1500, 200), 1300);
    assert_eq!(pacing_delay_ms(1000, 1500, 2000), 0);
    assert_eq!(pacing_delay_ms(3, 1, 0), 334);
    assert_eq!(pacing_delay_ms(1, u64::MAX, 0), u64::MAX);
}

fn paced_total_ms(chunk: u64) -> u64 {
    let mut lim = BandwidthLimiter::new(1_000_000);
    let mut waited = 0u64;
    let mut sent = 0u64;
    while sent < 5_000_000 {
        let k = chunk.min(5_000_000 - sent);
        sent += k;
        let d = lim.throttle(k, waited);
        waited += d;
    }
    assert_eq!(lim.total_bytes_transferred, 5_000_000);
    waited
}

#[test]
fn limiter_paces_regardless_of_granularity() {
    assert_eq!(paced_total_ms(5_000_000), 5000);
    assert_eq!(paced_total_ms(1_000_000), 5000);
    assert_eq!(paced_total_ms(65_536), 5000);
    assert_eq!(paced_total_ms(333_333), 5000);
}

#[test]
fn limiter_unlimited_records_nothing() {
    let mut lim = BandwidthLimiter::new(0);
    assert_eq!(lim.throttle(1_000_000, 0), 0);
    assert_eq!(lim.total_bytes_transferred, 0);
}

#[test]
fn limiter_wall_time_at_least_five_seconds() {
    let start = std::time::Instant::now();
    let mut lim = BandwidthLimiter::new(1_000_000);
    for _ in 0..20 {
        let elapsed = start.elapsed().as_millis() as u64;
        let d = lim.throttle(250_000, elapsed);
        let wake = std::time::Duration::from_millis(elapsed + d);
        while start.elapsed() < wake {
            std::hint::spin_loop();
        }
    }
    let secs = start.elapsed().as_secs_f64();
    assert!(secs >= 4.99, "took {secs}");
}

#[test]
fn worker_writes_only_its_range() {
    let mut file = vec![0xAAu8; 3000];
    let mut w = ChunkWorker::for_range(br(1000, 1999));
    assert_eq!(w.range_header().unwrap(), "bytes=1000-1999");
    let body: Vec<u8> = (0..1000u32).map(|i| (i % 251) as u8).collect();
    let mut pos = 0usize;
    for k in [300usize, 300, 400] {
        let off = w.accept(k as u64).unwrap() as usize;
        file[off..off + k].copy_from_slice(&body[pos..pos + k]);
        pos += k;
    }
    assert_eq!(w.finish(), Ok(()));
    assert!(file[..1000].iter().all(|&b| b == 0xAA));
    assert!(file[2000..].iter().all(|&b| b == 0xAA));
    assert_eq!(&file[1000..2000], &body[..]);
    assert_eq!(w.accept(1), Err(ChunkError::Overrun));
}

#[test]
fn worker_rejects_overrun_and_short_body() {
    let mut w = ChunkWorker::for_range(br(10, 19));
    assert_eq!(w.accept(11), Err(ChunkError::Overrun));
    assert_eq!(w.written, 0);
    assert_eq!(w.accept(4), Ok(10));
    assert_eq!(w.accept(3), Ok(14));
    assert_eq!(w.finish(), Err(ChunkError::Incomplete));
}

#[test]
fn worker_headers_for_streams() {
    assert_eq!(ChunkWorker::single_stream(0).range_header(), None);
    assert_eq!(ChunkWorker::single_stream(500).range_header().unwrap(), "bytes=500-");
    assert_eq!(ChunkWorker::single_stream(0).finish(), Ok(()));
}

#[test]
fn worker_restarts_when_range_ignored() {
    let mut w = ChunkWorker::single_stream(4_000_000);
    assert!(w.restart_on_full_body());
    assert_eq!(w, ChunkWorker { start: 0, end: None, written: 0 });
    let mut r = ChunkWorker::for_range(br(0, 9));
    assert!(!r.restart_on_full_body());
    assert_eq!(r, ChunkWorker { start: 0, end: Some(9), written: 0 });
}

fn config(resume: bool, chunk: u64, conc: usize) -> DownloadConfig {
    DownloadConfig::new(
        "http://example.com/f.bin".to_string(),
        "f.bin".to_string(),
        conc,
        chunk,
        resume,
        "RustDownloader/1.0".to_string(),
        30,
        0,
        AddressFamily::Any,
    )
    .unwrap()
}

#[test]
fn config_rejects_zero_settings() {
    let e = |c: usize, k: u64| {
        DownloadConfig::new(
            String::new(),
            String::new(),
            c,
            k,
            false,
            String::new(),
            30,
            0,
            AddressFamily::Ipv4Only,
        )
        .err()
    };
    assert_eq!(e(0, 10), Some(ConfigError::InvalidConcurrency));
    assert_eq!(e(0, 0), Some(ConfigError::InvalidConcurrency));
    assert_eq!(e(2, 0), Some(ConfigError::InvalidChunkSize));
    assert_eq!(e(2, 1), None);
}

#[test]
fn job_complete_file_finishes_without_transfer() {
    let mut job = DownloadJob::new(&config(true, 100, 4));
    let a = job.step(JobEvent::Probed { probe: probe(1000, true) });
    assert!(matches!(a, JobAction::InspectFile));
    let a = job.step(JobEvent::Inspected { existing_len: Some(1000) });
    assert!(matches!(a, JobAction::Finish));
    assert_eq!(job.state, JobState::Finished);
    assert!(matches!(job.step(JobEvent::TransferFailed), JobAction::Ignore));
    assert_eq!(job.state, JobState::Finished);
}

#[test]
fn job_multi_stream_presizes_file() {
    let mut job = DownloadJob::new(&config(false, 1_000_000, 4));
    job.step(JobEvent::Probed { probe: probe(10_000_000, true) });
    match job.step(JobEvent::Inspected { existing_len: Some(3) }) {
        JobAction::Transfer { strategy: TransferStrategy::MultiStream { ranges }, truncate, presize } => {
            assert_eq!(ranges.len(), 4);
            assert!(truncate);
            assert_eq!(presize, Some(10_000_000));
        }
        other => panic!("unexpected {other:?}"),
    }
    assert!(matches!(job.step(JobEvent::TransferSucceeded), JobAction::Finish));
}

#[test]
fn job_failures() {
    let mut job = DownloadJob::new(&config(false, 10, 1));
    assert!(matches!(job.step(JobEvent::TransferSucceeded), JobAction::Ignore));
    assert!(matches!(
        job.step(JobEvent::ProbeFailed),
        JobAction::Fail { error: JobError::Probe }
    ));
    let mut job = DownloadJob::new(&config(false, 10, 1));
    job.step(JobEvent::Probed { probe: probe(5, false) });
    assert!(matches!(
        job.step(JobEvent::ResumeIoFailed),
        JobAction::Fail { error: JobError::ResumeIo }
    ));
    let mut job = DownloadJob::new(&config(false, 10, 1));
    job.step(JobEvent::Probed { probe: probe(5, false) });
    match job.step(JobEvent::Inspected { existing_len: None }) {
        JobAction::Transfer { strategy: TransferStrategy::SingleStream { from: 0 }, truncate: false, presize: None } => {}
        other => panic!("unexpected {other:?}"),
    }
    assert!(matches!(
        job.step(JobEvent::TransferFailed),
        JobAction::Fail { error: JobError::Transfer }
    ));
    assert_eq!(job.state, JobState::Failed { error: JobError::Transfer });
}

/// Runs a single-stream transfer of `source` into `file`, stopping after `limit`
/// bytes of body when given.
fn run_single(job: &mut DownloadJob, file: &mut Vec<u8>, source: &[u8], limit: Option<usize>) {
    job.step(JobEvent::Probed { probe: probe(source.len() as u64, true) });
    let existing = if file.is_empty() { None } else { Some(file.len() as u64) };
    let (from, truncate) = match job.step(JobEvent::Inspected { existing_len: existing }) {
        JobAction::Transfer { strategy: TransferStrategy::SingleStream { from }, truncate, .. } => {
            (from, truncate)
        }
        other => panic!("unexpected {other:?}"),
    };
    if truncate {
        file.clear();
    }
    let mut w = ChunkWorker::single_stream(from);
    let body = &source[from as usize..];
    let stop = limit.unwrap_or(body.len()).min(body.len());
    for piece in body[..stop].chunks(65_536) {
        let off = w.accept(piece.len() as u64).unwrap() as usize;
        if file.len() < off + piece.len() {
            file.resize(off + piece.len(), 0);
        }
        file[off..off + piece.len()].copy_from_slice(piece);
    }
    if limit.is_none() {
        assert_eq!(w.finish(), Ok(()));
        job.step(JobEvent::TransferSucceeded);
    }
}

#[test]
fn resumed_download_equals_uninterrupted_one() {
    let source: Vec<u8> = (0..10_000_000u64).map(|i| (i * 7 % 256) as u8).collect();
    let mut whole = Vec::new();
    let mut job = DownloadJob::new(&config(false, 1_000_000_000, 1));
    run_single(&mut job, &mut whole, &source, None);
    assert_eq!(whole, source);

    let mut file = Vec::new();
    let mut first = DownloadJob::new(&config(true, 1_000_000_000, 1));
    run_single(&mut first, &mut file, &source, Some(4_000_000));
    assert_eq!(file.len(), 4_000_000);
    let mut second = DownloadJob::new(&config(true, 1_000_000, 4));
    run_single(&mut second, &mut file, &source, None);
    assert_eq!(second.state, JobState::Finished);
    assert_eq!(file, whole);
}

#[test]
fn multi_stream_download_is_byte_identical() {
    let total = 10_485_760usize;
    let source: Vec<u8> = (0..total as u64).map(|i| (i * 31 % 253) as u8).collect();
    let mut job = DownloadJob::new(&config(false, 2_097_152, 4));
    job.step(JobEvent::Probed { probe: probe(total as u64, true) });
    let (ranges, presize) = match job.step(JobEvent::Inspected { existing_len: None }) {
        JobAction::Transfer { strategy: TransferStrategy::MultiStream { ranges }, presize, .. } => {
            (ranges, presize)
        }
        other => panic!("unexpected {other:?}"),
    };
    let mut file = vec![0u8; presize.unwrap() as usize];
    for r in ranges.iter().rev() {
        let mut w = ChunkWorker::for_range(*r);
        let body = &source[r.start as usize..=r.end as usize];
        for piece in body.chunks(100_000) {
            let off = w.accept(piece.len() as u64).unwrap() as usize;
            file[off..off + piece.len()].copy_from_slice(piece);
        }
        assert_eq!(w.finish(), Ok(()));
    }
    assert_eq!(file.len(), 10_485_760);
    assert!(file == source);
}

#[test]
fn scheduler_bounds_running_jobs() {
    let mut s = JobScheduler::new(5, 2);
    assert_eq!(s.start_next(), Some(0));
    assert_eq!(s.start_next(), Some(1));
    assert_eq!(s.start_next(), None);
    s.add_size(1000);
    s.add_done(400);
    s.complete(false);
    assert_eq!(s.failed, 1);
    assert_eq!(s.start_next(), Some(2));
    assert_eq!(s.start_next(), None);
    s.complete(true);
    s.complete(true);
    assert_eq!(s.start_next(), Some(3));
    assert_eq!(s.start_next(), Some(4));
    assert_eq!(s.start_next(), None);
    assert!(!s.is_done());
    s.complete(true);
    s.complete(true);
    assert!(s.is_done());
    assert_eq!(s.succeeded, 4);
    assert_eq!(s.counters.files_total, 5);
    assert_eq!(s.counters.files_finished, 5);
    assert_eq!(s.counters.bytes_total, 1000);
    assert_eq!(s.counters.bytes_done, 400);
}
