//! Validated settings of a download, and the small text rules that feed them.
use vstd::prelude::*;
use vstd::string::StringExecFns;
use crate::text::{all_digits, digits_value, parse_digits};

verus! {

/// Which addresses connections may use.
#[derive(Clone, Copy, Debug, PartialEq, Eq, Structural)]
pub enum AddressFamily {
    Any,
    Ipv4Only,
    Ipv6Only,
}

/// Why a configuration was refused.
#[derive(Clone, Copy, Debug, PartialEq, Eq, Structural)]
pub enum ConfigError {
    /// The number of concurrent chunks must be at least 1.
    InvalidConcurrency,
    /// The chunk size must be at least 1 byte.
    InvalidChunkSize,
    /// The number of files downloaded at once must be at least 1.
    InvalidParallelism,
    /// A bandwidth limit is a byte count with an optional `K`, `M` or `G` suffix.
    InvalidBandwidthLimit,
}

/// Settings of one download, fixed before it starts.
#[derive(Debug)]
pub struct DownloadConfig {
    pub url: String,
    pub output_path: String,
    pub concurrent_chunks: usize,
    pub chunk_size: u64,
    pub resume: bool,
    pub user_agent: String,
    pub timeout_secs: u64,
    /// Bytes per second for the whole run; 0 means unlimited.
    pub bandwidth_limit: u64,
    pub address_family: AddressFamily,
}

impl DownloadConfig {
    /// The numeric settings that the engine divides and counts by are positive.
    pub open spec fn wf(&self) -> bool {
        self.concurrent_chunks >= 1 && self.chunk_size >= 1
    }

    /// Builds a configuration, refusing a concurrency or a chunk size of 0.
    pub fn new(
        url: String,
        output_path: String,
        concurrent_chunks: usize,
        chunk_size: u64,
        resume: bool,
        user_agent: String,
        timeout_secs: u64,
        bandwidth_limit: u64,
        address_family: AddressFamily,
    ) -> (r: Result<DownloadConfig, ConfigError>)
        ensures
            concurrent_chunks == 0 ==> r == Err::<DownloadConfig, ConfigError>(
                ConfigError::InvalidConcurrency,
            ),
            concurrent_chunks >= 1 && chunk_size == 0 ==> r == Err::<DownloadConfig, ConfigError>(
                ConfigError::InvalidChunkSize,
            ),
            concurrent_chunks >= 1 && chunk_size >= 1 <==> r is Ok,
            r matches Ok(c) ==> c.wf() && c == (DownloadConfig {
                url,
                output_path,
                concurrent_chunks,
                chunk_size,
                resume,
                user_agent,
                timeout_secs,
                bandwidth_limit,
                address_family,
            }),
    {
        if concurrent_chunks == 0 {
            return Err(ConfigError::InvalidConcurrency);
        }
        if chunk_size == 0 {
            return Err(ConfigError::InvalidChunkSize);
        }
        Ok(
            DownloadConfig {
                url,
                output_path,
                concurrent_chunks,
                chunk_size,
                resume,
                user_agent,
                timeout_secs,
                bandwidth_limit,
                address_family,
            },
        )
    }
}

/// The multiple of a size suffix, case-insensitive: K, M and G are binary
/// multiples; 0 for any other character.
pub open spec fn suffix_scale(c: char) -> int {
    if c == 'k' || c == 'K' {
        1024
    } else if c == 'm' || c == 'M' {
        1_048_576
    } else if c == 'g' || c == 'G' {
        1_073_741_824
    } else {
        0
    }
}

/// The byte count that a bandwidth-limit text stands for: digits, then at most one
/// size suffix; `None` when the text has another shape or the count exceeds 64 bits.
pub open spec fn bandwidth_spec(s: Seq<char>) -> Option<u64> {
    let has_suffix = s.len() > 0 && suffix_scale(s.last()) > 0;
    let digits = if has_suffix {
        s.drop_last()
    } else {
        s
    };
    let scale = if has_suffix {
        suffix_scale(s.last())
    } else {
        1
    };
    if digits.len() > 0 && all_digits(digits) && digits_value(digits) * scale <= u64::MAX {
        Some((digits_value(digits) * scale) as u64)
    } else {
        None
    }
}

/// Reads a bandwidth limit such as `500`, `64k` or `2M` as bytes per second.
pub fn parse_bandwidth_limit(s: &str) -> (r: Result<u64, ConfigError>)
    ensures
        match bandwidth_spec(s@) {
            Some(v) => r == Ok::<u64, ConfigError>(v),
            None => r == Err::<u64, ConfigError>(ConfigError::InvalidBandwidthLimit),
        },
{
    let len = s.unicode_len();
    if len == 0 {
        return Err(ConfigError::InvalidBandwidthLimit);
    }
    let last = s.get_char(len - 1);
    let scale: u64 = if last == 'k' || last == 'K' {
        1024
    } else if last == 'm' || last == 'M' {
        1_048_576
    } else if last == 'g' || last == 'G' {
        1_073_741_824
    } else {
        1
    };
    let end: usize = if scale > 1 {
        len - 1
    } else {
        len
    };
    assert(s@.last() == last);
    assert(s@.subrange(0, end as int) =~= (if scale > 1 { s@.drop_last() } else { s@ }));
    if end == 0 {
        return Err(ConfigError::InvalidBandwidthLimit);
    }
    match parse_digits(s, 0, end) {
        Some(v) => match v.checked_mul(scale) {
            Some(b) => Ok(b),
            None => Err(ConfigError::InvalidBandwidthLimit),
        },
        None => {
            proof {
                let d = s@.subrange(0, end as int);
                if all_digits(d) {
                    assert(digits_value(d) * scale >= digits_value(d)) by (nonlinear_arith)
                        requires
                            scale >= 1,
                            digits_value(d) > u64::MAX,
                    ;
                }
            }
            Err(ConfigError::InvalidBandwidthLimit)
        },
    }
}

/// The characters after the last `/` of `s`; all of `s` when it has none.
pub open spec fn last_segment(s: Seq<char>) -> Seq<char>
    decreases s.len(),
{
    if s.len() == 0 {
        s
    } else if s.last() == '/' {
        Seq::empty()
    } else {
        last_segment(s.drop_last()).push(s.last())
    }
}

/// The file name a URL is saved under by default: its last path segment, or
/// `index.html` when that is empty.
pub open spec fn default_filename_spec(url: Seq<char>) -> Seq<char> {
    if last_segment(url).len() == 0 {
        seq!['i', 'n', 'd', 'e', 'x', '.', 'h', 't', 'm', 'l']
    } else {
        last_segment(url)
    }
}

/// Names the output file after the URL's last path segment, or `index.html`.
pub fn default_output_filename(url: &str) -> (r: String)
    ensures
        r@ == default_filename_spec(url@),
{
    let len = url.unicode_len();
    let mut from: usize = 0;
    let mut i: usize = 0;
    while i < len
        invariant
            len == url@.len(),
            from <= i <= len,
            url@.subrange(from as int, i as int) == last_segment(url@.subrange(0, i as int)),
        decreases len - i,
    {
        let c = url.get_char(i);
        let ghost pre = url@.subrange(0, i as int);
        assert(url@.subrange(0, i + 1).drop_last() =~= pre);
        if c == '/' {
            from = i + 1;
            assert(url@.subrange(from as int, i + 1) =~= Seq::<char>::empty());
        } else {
            assert(url@.subrange(from as int, i + 1) =~= url@.subrange(from as int, i as int).push(
                c,
            ));
        }
        i = i + 1;
    }
    assert(url@.subrange(0, len as int) =~= url@);
    if from == len {
        proof {
            reveal_strlit("index.html");
        }
        return String::from_str("index.html");
    }
    String::from_str(url.substring_char(from, len))
}

/// `c` with ASCII capitals made small.
pub open spec fn ascii_lower(c: char) -> char {
    if 'A' <= c && c <= 'Z' {
        ((c as u8) + 32) as char
    } else {
        c
    }
}

/// `s` equals `w` when ASCII letters are compared without case.
pub open spec fn same_ignoring_case(s: Seq<char>, w: Seq<char>) -> bool {
    s.len() == w.len() && forall|i: int| 0 <= i < s.len() ==> ascii_lower(#[trigger] s[i]) == w[i]
}

fn lower_char(c: char) -> (r: char)
    ensures
        r == ascii_lower(c),
{
    if 'A' <= c && c <= 'Z' {
        ((c as u8) + 32) as char
    } else {
        c
    }
}

/// Whether `s` spells the lower-case word `w`, ignoring the case of ASCII letters.
pub fn matches_word(s: &str, w: &str) -> (r: bool)
    ensures
        r == same_ignoring_case(s@, w@),
{
    let len = s.unicode_len();
    if len != w.unicode_len() {
        return false;
    }
    let mut i: usize = 0;
    while i < len
        invariant
            len == s@.len() == w@.len(),
            i <= len,
            forall|j: int| 0 <= j < i ==> ascii_lower(#[trigger] s@[j]) == w@[j],
        decreases len - i,
    {
        if lower_char(s.get_char(i)) != w.get_char(i) {
            return false;
        }
        i = i + 1;
    }
    true
}

/// The answer to a yes/no question: `y`, `yes`, `true` or `n`, `no`, `false`, in any
/// case of ASCII letters; `None` for anything else.
pub open spec fn yes_no_spec(s: Seq<char>) -> Option<bool> {
    if same_ignoring_case(s, seq!['y']) || same_ignoring_case(s, seq!['y', 'e', 's'])
        || same_ignoring_case(s, seq!['t', 'r', 'u', 'e']) {
        Some(true)
    } else if same_ignoring_case(s, seq!['n']) || same_ignoring_case(s, seq!['n', 'o'])
        || same_ignoring_case(s, seq!['f', 'a', 'l', 's', 'e']) {
        Some(false)
    } else {
        None
    }
}

/// Reads a yes/no answer.
pub fn parse_yes_no(s: &str) -> (r: Option<bool>)
    ensures
        r == yes_no_spec(s@),
{
    proof {
        reveal_strlit("y");
        reveal_strlit("yes");
        reveal_strlit("true");
        reveal_strlit("n");
        reveal_strlit("no");
        reveal_strlit("false");
    }
    if matches_word(s, "y") || matches_word(s, "yes") || matches_word(s, "true") {
        Some(true)
    } else if matches_word(s, "n") || matches_word(s, "no") || matches_word(s, "false") {
        Some(false)
    } else {
        None
    }
}

/// Whether `s` begins with `p`.
pub fn starts_with_text(s: &str, p: &str) -> (r: bool)
    ensures
        r == (p@.len() <= s@.len() && s@.subrange(0, p@.len() as int) == p@),
{
    let n = p.unicode_len();
    if n > s.unicode_len() {
        return false;
    }
    let mut i: usize = 0;
    while i < n
        invariant
            n == p@.len() <= s@.len(),
            i <= n,
            forall|j: int| 0 <= j < i ==> s@[j] == p@[j],
        decreases n - i,
    {
        if s.get_char(i) != p.get_char(i) {
            assert(s@.subrange(0, n as int)[i as int] != p@[i as int]);
            return false;
        }
        i = i + 1;
    }
    assert(s@.subrange(0, n as int) =~= p@);
    true
}

/// `url` names an HTTP or HTTPS resource.
pub open spec fn has_http_scheme_spec(url: Seq<char>) -> bool {
    let http = seq!['h', 't', 't', 'p', ':', '/', '/'];
    let https = seq!['h', 't', 't', 'p', 's', ':', '/', '/'];
    (http.len() <= url.len() && url.subrange(0, http.len() as int) == http) || (https.len()
        <= url.len() && url.subrange(0, https.len() as int) == https)
}

/// Whether `url` starts with `http://` or `https://`.
pub fn has_http_scheme(url: &str) -> (r: bool)
    ensures
        r == has_http_scheme_spec(url@),
{
    proof {
        reveal_strlit("http://");
        reveal_strlit("https://");
        assert("http://"@ =~= seq!['h', 't', 't', 'p', ':', '/', '/']);
        assert("https://"@ =~= seq!['h', 't', 't', 'p', 's', ':', '/', '/']);
    }
    starts_with_text(url, "http://") || starts_with_text(url, "https://")
}

/// A chunk size picked from the menu: a preset, or one the user will type.
#[derive(Clone, Copy, Debug, PartialEq, Eq, Structural)]
pub enum ChunkSizeChoice {
    Preset(u64),
    Custom,
}

/// The chunk size of menu entry `choice`: 512 KB, 1 MB, 2 MB, 4 MB, or custom;
/// `None` outside `1..=5`.
pub open spec fn chunk_size_choice_spec(choice: u64) -> Option<ChunkSizeChoice> {
    if choice == 1 {
        Some(ChunkSizeChoice::Preset(524_288))
    } else if choice == 2 {
        Some(ChunkSizeChoice::Preset(1_048_576))
    } else if choice == 3 {
        Some(ChunkSizeChoice::Preset(2_097_152))
    } else if choice == 4 {
        Some(ChunkSizeChoice::Preset(4_194_304))
    } else if choice == 5 {
        Some(ChunkSizeChoice::Custom)
    } else {
        None
    }
}

/// Maps a chunk-size menu entry to its size.
pub fn chunk_size_choice(choice: u64) -> (r: Option<ChunkSizeChoice>)
    ensures
        r == chunk_size_choice_spec(choice),
{
    if choice == 1 {
        Some(ChunkSizeChoice::Preset(524_288))
    } else if choice == 2 {
        Some(ChunkSizeChoice::Preset(1_048_576))
    } else if choice == 3 {
        Some(ChunkSizeChoice::Preset(2_097_152))
    } else if choice == 4 {
        Some(ChunkSizeChoice::Preset(4_194_304))
    } else if choice == 5 {
        Some(ChunkSizeChoice::Custom)
    } else {
        None
    }
}

/// The user agent sent when none is chosen.
pub open spec fn default_agent() -> Seq<char> {
    "RustDownloader/1.0"@
}

/// A browser-like user agent for Firefox.
pub open spec fn firefox_agent() -> Seq<char> {
    "Mozilla/5.0 (Windows NT 10.0; Win64; x64; rv:91.0) Gecko/20100101 Firefox/91.0"@
}

/// A browser-like user agent for Chrome.
pub open spec fn chrome_agent() -> Seq<char> {
    "Mozilla/5.0 (Windows NT 10.0; Win64; x64) AppleWebKit/537.36 (KHTML, like Gecko) Chrome/91.0.4472.124 Safari/537.36"@
}

/// A user agent picked from the menu: a preset, or one the user will type.
#[derive(Debug)]
pub enum UserAgentChoice {
    Preset(String),
    Custom,
}

/// Maps a user-agent menu entry to its text: the default, Firefox, Chrome, or
/// custom; `None` outside `1..=4`.
pub fn user_agent_choice(choice: u64) -> (r: Option<UserAgentChoice>)
    ensures
        choice == 1 ==> (r matches Some(UserAgentChoice::Preset(s)) && s@ == default_agent()),
        choice == 2 ==> (r matches Some(UserAgentChoice::Preset(s)) && s@ == firefox_agent()),
        choice == 3 ==> (r matches Some(UserAgentChoice::Preset(s)) && s@ == chrome_agent()),
        choice == 4 ==> r matches Some(UserAgentChoice::Custom),
        !(1 <= choice <= 4) ==> r is None,
{
    if choice == 1 {
        Some(UserAgentChoice::Preset(String::from_str("RustDownloader/1.0")))
    } else if choice == 2 {
        Some(
            UserAgentChoice::Preset(
                String::from_str(
                    "Mozilla/5.0 (Windows NT 10.0; Win64; x64; rv:91.0) Gecko/20100101 Firefox/91.0",
                ),
            ),
        )
    } else if choice == 3 {
        Some(
            UserAgentChoice::Preset(
                String::from_str(
                    "Mozilla/5.0 (Windows NT 10.0; Win64; x64) AppleWebKit/537.36 (KHTML, like Gecko) Chrome/91.0.4472.124 Safari/537.36",
                ),
            ),
        )
    } else if choice == 4 {
        Some(UserAgentChoice::Custom)
    } else {
        None
    }
}

} // verus!
