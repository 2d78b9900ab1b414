use vstd::prelude::*;
use crate::command::{extract_command, spec_extract_command};
use crate::settings::AIProviderConfig;

verus! {

/// An assistant's answer, with the shell command it suggests, if any.
#[derive(Debug, Clone)]
pub struct AIResponse {
    pub response: String,
    pub command: Option<String>,
    pub tokens_used: Option<usize>,
    pub model: Option<String>,
    pub cached: bool,
}

impl AIResponse {
    /// Wraps a completion text, picking out its suggested command.
    pub fn from_reply(response: String, model: Option<String>, tokens_used: Option<usize>, cached: bool) -> (r: AIResponse)
        ensures
            r.response == response,
            r.model == model,
            r.tokens_used == tokens_used,
            r.cached == cached,
            match r.command {
                Some(c) => spec_extract_command(response@) == Some(c@),
                None => spec_extract_command(response@) is None,
            },
    {
        let command = extract_command(response.as_str());
        AIResponse { response, command, tokens_used, model, cached }
    }
}

/// Completion providers: a primary one and ordered fallbacks.
pub struct AIProcessor {
    pub providers: Vec<AIProviderConfig>,
}

/// What to do after some providers were tried in order and failed.
#[derive(Debug, Clone, Copy, PartialEq, Eq, Structural)]
pub enum Attempt {
    /// Ask the provider at this index next.
    Try(usize),
    /// Every provider failed.
    AllFailed,
}

impl AIProcessor {
    pub fn new(providers: Vec<AIProviderConfig>) -> (r: AIProcessor)
        ensures
            r.providers@ == providers@,
    {
        AIProcessor { providers }
    }

    /// Sequential fallback: after `failed` providers failed, the next one in
    /// order, until none is left.
    pub fn next_attempt(&self, failed: usize) -> (r: Attempt)
        ensures
            failed < self.providers@.len() ==> r == Attempt::Try(failed),
            failed >= self.providers@.len() ==> r == Attempt::AllFailed,
    {
        if failed < self.providers.len() {
            Attempt::Try(failed)
        } else {
            Attempt::AllFailed
        }
    }
}

/// One failed item of a batch operation.
#[derive(Debug, Clone)]
pub struct BatchError {
    pub index: usize,
    pub error: String,
}

/// The items of a batch operation that succeeded, and those that failed.
pub struct BatchResult<T> {
    pub successful: Vec<T>,
    pub failed: Vec<BatchError>,
}

/// A granted login.
#[derive(Debug, Clone)]
pub struct AuthResult {
    pub token: String,
    pub session_id: String,
    pub expires_in: u64,
}

/// What a verified token says.
#[derive(Debug, Clone)]
pub struct TokenInfo {
    pub user_id: String,
    pub session_id: String,
    pub expires_at: usize,
}

/// Login sessions against their limit.
#[derive(Debug, Clone, Copy, PartialEq, Eq, Structural)]
pub struct AuthStats {
    pub total_sessions: usize,
    pub active_sessions: usize,
    pub max_sessions: usize,
}

/// Counters of a time-to-live cache.
#[derive(Debug, Clone, Copy, PartialEq, Eq, Structural)]
pub struct CacheStats {
    pub total_entries: usize,
    pub total_hits: u64,
    pub capacity: usize,
    pub ttl_seconds: u64,
    pub oldest_entry_age: u64,
}

impl CacheStats {
    /// An empty cache of the given size and entry lifetime.
    pub fn new(capacity: usize, ttl_seconds: u64) -> (r: CacheStats)
        ensures
            r == (CacheStats { total_entries: 0, total_hits: 0, capacity, ttl_seconds, oldest_entry_age: 0 }),
    {
        CacheStats { total_entries: 0, total_hits: 0, capacity, ttl_seconds, oldest_entry_age: 0 }
    }
}

/// Encodings of cached values.
#[derive(Debug, Clone, Copy, PartialEq, Eq, Structural)]
pub enum CompressionMethod {
    Uncompressed,
    Gzip,
    Brotli,
    Lz4,
}

/// Size classes of I/O buffers: up to 4 KiB, up to 64 KiB, and larger.
#[derive(Debug, Clone, Copy, PartialEq, Eq, Structural)]
pub enum BufferSize {
    Small,
    Medium,
    Large,
}

impl BufferSize {
    pub fn classify(size: usize) -> (r: BufferSize)
        ensures
            size <= 4096 ==> r == BufferSize::Small,
            4096 < size <= 65536 ==> r == BufferSize::Medium,
            65536 < size ==> r == BufferSize::Large,
    {
        if size <= 4096 {
            BufferSize::Small
        } else if size <= 65536 {
            BufferSize::Medium
        } else {
            BufferSize::Large
        }
    }
}

pub const CACHE_LINE_SIZE: usize = 64;

/// `size` rounded up to a whole number of cache lines.
pub fn align_to_cache_line(size: usize) -> (r: usize)
    requires
        size <= usize::MAX - (CACHE_LINE_SIZE - 1),
    ensures
        r % CACHE_LINE_SIZE == 0,
        size <= r < size + CACHE_LINE_SIZE,
{
    let lines = (size + (CACHE_LINE_SIZE - 1)) / CACHE_LINE_SIZE;
    let r = lines * CACHE_LINE_SIZE;
    assert(r % 64 == 0 && size <= r < size + 64) by (nonlinear_arith)
        requires
            lines == (size + 63) / 64,
            r == lines * 64,
    ;
    r
}

/// A branch hint: the value itself.
pub fn likely(b: bool) -> (r: bool)
    ensures
        r == b,
{
    b
}

/// A branch hint: the value itself.
pub fn unlikely(b: bool) -> (r: bool)
    ensures
        r == b,
{
    b
}

} // verus!
