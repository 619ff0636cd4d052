//! What a metadata probe tells, where a transfer resumes, and how it is split.
use vstd::prelude::*;
use crate::range::{ByteRange, partition_seq, partition_ranges};
use crate::text::{parse_u64, parse_u64_spec};

verus! {

/// What the metadata request learned about a resource.
#[derive(Clone, Copy, Debug, PartialEq, Eq, Structural)]
pub struct ProbeResult {
    /// Total size in bytes; 0 when the server gave none.
    pub total_size: u64,
    /// The server advertised byte-range requests.
    pub supports_ranges: bool,
}

/// The token by which a server advertises byte-range requests.
pub open spec fn bytes_token() -> Seq<char> {
    seq!['b', 'y', 't', 'e', 's']
}

/// The probe result for the given content-length and accept-ranges header values.
pub open spec fn probe_spec(content_length: Option<Seq<char>>, accept_ranges: Option<Seq<char>>) -> ProbeResult {
    ProbeResult {
        total_size: match content_length {
            Some(v) => match parse_u64_spec(v) {
                Some(n) => n,
                None => 0,
            },
            None => 0,
        },
        supports_ranges: accept_ranges == Some(bytes_token()),
    }
}

/// Whether `s` is exactly the token `bytes`.
pub fn is_bytes_token(s: &str) -> (r: bool)
    ensures
        r == (s@ == bytes_token()),
{
    let len = s.unicode_len();
    if len != 5 {
        return false;
    }
    let r = s.get_char(0) == 'b' && s.get_char(1) == 'y' && s.get_char(2) == 't'
        && s.get_char(3) == 'e' && s.get_char(4) == 's';
    if r {
        assert(s@ =~= bytes_token());
    }
    r
}

/// Reads a probe result from the response's content-length and accept-ranges
/// header values (`None` where a header is absent): an absent or unreadable length
/// counts as 0, and ranges are supported only when advertised as `bytes`.
pub fn probe_from_headers(content_length: Option<&str>, accept_ranges: Option<&str>) -> (r: ProbeResult)
    ensures
        r == probe_spec(
            match content_length { Some(v) => Some(v@), None => None },
            match accept_ranges { Some(v) => Some(v@), None => None },
        ),
{
    let total_size = match content_length {
        Some(v) => match parse_u64(v) {
            Some(n) => n,
            None => 0,
        },
        None => 0,
    };
    let supports_ranges = match accept_ranges {
        Some(v) => is_bytes_token(v),
        None => false,
    };
    ProbeResult { total_size, supports_ranges }
}

/// Where a transfer starts, given what is already on disk.
#[derive(Clone, Copy, Debug, PartialEq, Eq, Structural)]
pub enum ResumeOutcome {
    /// The file already holds the whole resource: nothing is transferred.
    AlreadyComplete,
    /// Transfer from `already_downloaded`; `truncate` asks to empty the existing file first.
    Start { already_downloaded: u64, truncate: bool },
}

/// The resume decision for the requested `resume` flag, the length of the existing
/// output file (`None` when there is none) and the probed total size.
pub open spec fn resume_spec(resume: bool, existing_len: Option<u64>, total_size: u64) -> ResumeOutcome {
    match existing_len {
        Some(len) => if resume {
            if total_size > 0 && len >= total_size {
                ResumeOutcome::AlreadyComplete
            } else {
                ResumeOutcome::Start { already_downloaded: len, truncate: false }
            }
        } else {
            ResumeOutcome::Start { already_downloaded: 0, truncate: true }
        },
        None => ResumeOutcome::Start { already_downloaded: 0, truncate: false },
    }
}

/// Decides where the transfer starts: a resumed file continues from its length or
/// is already complete, an existing file that is not resumed is emptied, and a
/// missing file starts at 0.
pub fn resolve_resume(resume: bool, existing_len: Option<u64>, total_size: u64) -> (r: ResumeOutcome)
    ensures
        r == resume_spec(resume, existing_len, total_size),
{
    match existing_len {
        Some(len) => if resume {
            if total_size > 0 && len >= total_size {
                ResumeOutcome::AlreadyComplete
            } else {
                ResumeOutcome::Start { already_downloaded: len, truncate: false }
            }
        } else {
            ResumeOutcome::Start { already_downloaded: 0, truncate: true }
        },
        None => ResumeOutcome::Start { already_downloaded: 0, truncate: false },
    }
}

/// How one resource is transferred.
#[derive(Debug)]
pub enum TransferStrategy {
    /// One sequential stream, written from offset `from` on.
    SingleStream { from: u64 },
    /// Concurrent workers, one per range.
    MultiStream { ranges: Vec<ByteRange> },
}

/// Number of ranges of a multi-stream transfer: the configured concurrency, at most
/// one more than the number of whole chunks, and never more ranges than bytes.
pub open spec fn stream_count(total_size: u64, chunk_size: u64, concurrency: usize) -> nat {
    let by_chunks = total_size / chunk_size + 1;
    let capped = if by_chunks < total_size { by_chunks } else { total_size as int };
    if (concurrency as int) < capped {
        concurrency as nat
    } else {
        capped as nat
    }
}

/// The strategy chosen for a probe result, the resume flag, the configured chunk
/// size and concurrency, and the bytes already on disk, as the rows of a decision
/// table evaluated in order.
pub open spec fn strategy_spec(
    s: TransferStrategy,
    probe: ProbeResult,
    resume: bool,
    chunk_size: u64,
    concurrency: usize,
    already_downloaded: u64,
) -> bool {
    if probe.total_size == 0 || resume {
        s == TransferStrategy::SingleStream { from: already_downloaded }
    } else if probe.supports_ranges && probe.total_size > chunk_size {
        &&& s is MultiStream
        &&& s->ranges@ == partition_seq(
            0,
            probe.total_size,
            stream_count(probe.total_size, chunk_size, concurrency),
        )
    } else {
        s == TransferStrategy::SingleStream { from: 0 }
    }
}

/// An unknown size, a resumed transfer, or a server without range support each
/// lead to a single stream; several streams come only from a fresh transfer of a
/// known size larger than one chunk from a range-capable server.
pub proof fn lemma_single_stream_cases(
    s: TransferStrategy,
    probe: ProbeResult,
    resume: bool,
    chunk_size: u64,
    concurrency: usize,
    already_downloaded: u64,
)
    requires
        strategy_spec(s, probe, resume, chunk_size, concurrency, already_downloaded),
    ensures
        probe.total_size == 0 ==> (s is SingleStream),
        resume ==> s == (TransferStrategy::SingleStream { from: already_downloaded }),
        !probe.supports_ranges ==> (s is SingleStream),
        (s is MultiStream) <==> (probe.total_size > 0 && !resume && probe.supports_ranges
            && probe.total_size > chunk_size),
{
}

/// Chooses single- or multi-stream transfer. An unknown size or a resumed transfer
/// streams sequentially from what is on disk; a range-capable server with more than
/// one chunk of data gets `stream_count` concurrent ranges over the whole resource;
/// anything else streams from offset 0.
pub fn select_strategy(
    probe: ProbeResult,
    resume: bool,
    chunk_size: u64,
    concurrency: usize,
    already_downloaded: u64,
) -> (s: TransferStrategy)
    requires
        chunk_size >= 1,
        concurrency >= 1,
    ensures
        strategy_spec(s, probe, resume, chunk_size, concurrency, already_downloaded),
{
    let total = probe.total_size;
    if total == 0 || resume {
        TransferStrategy::SingleStream { from: already_downloaded }
    } else if probe.supports_ranges && total > chunk_size {
        let mut n: u64 = total / chunk_size;
        if n < total {
            n = n + 1;
        }
        if (concurrency as u64) < n {
            n = concurrency as u64;
        }
        assert(n == stream_count(total, chunk_size, concurrency));
        let ranges = partition_ranges(0, total, n as usize);
        TransferStrategy::MultiStream { ranges }
    } else {
        TransferStrategy::SingleStream { from: 0 }
    }
}

} // verus!
