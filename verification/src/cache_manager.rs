//! Cache bookkeeping: the kinds of cache, how their sizes add up, and the order in which files
//! are removed when space must be freed (oldest first).
//!
//! Walking directories and removing files is left to the caller.
use vstd::prelude::*;

verus! {

broadcast use vstd::seq_lib::group_to_multiset_ensures;

/// A kind of cache, each in its own directory.
#[derive(Debug, Clone, Copy, PartialEq, Eq, Structural)]
pub enum CacheType {
    /// Responses of remote APIs.
    ApiResponse,
    /// Outputs of models.
    ModelOutput,
    /// Temporary files.
    TempFiles,
    /// Log files.
    Logs,
}

/// The directory name of a kind of cache.
pub open spec fn cache_subdir(t: CacheType) -> Seq<char> {
    match t {
        CacheType::ApiResponse => "api_cache"@,
        CacheType::ModelOutput => "model_cache"@,
        CacheType::TempFiles => "temp"@,
        CacheType::Logs => "logs"@,
    }
}

impl CacheType {
    /// The directory name of this kind of cache.
    pub fn subdir(&self) -> (r: &'static str)
        ensures
            r@ == cache_subdir(*self),
    {
        match self {
            CacheType::ApiResponse => "api_cache",
            CacheType::ModelOutput => "model_cache",
            CacheType::TempFiles => "temp",
            CacheType::Logs => "logs",
        }
    }
}

/// The bytes used, in total and per kind.
#[derive(Debug, Clone, Copy, PartialEq, Eq, Structural)]
pub struct CacheUsage {
    pub total_bytes: u64,
    /// API, model and temporary caches together.
    pub cache_bytes: u64,
    pub log_bytes: u64,
    pub api_cache_bytes: u64,
    pub model_cache_bytes: u64,
    pub temp_bytes: u64,
}

impl CacheUsage {
    /// The usage made of the sizes of the four directories.
    pub fn from_sizes(api_cache_bytes: u64, model_cache_bytes: u64, temp_bytes: u64, log_bytes: u64) -> (r: CacheUsage)
        requires
            api_cache_bytes + model_cache_bytes + temp_bytes + log_bytes <= u64::MAX,
        ensures
            r.api_cache_bytes == api_cache_bytes,
            r.model_cache_bytes == model_cache_bytes,
            r.temp_bytes == temp_bytes,
            r.log_bytes == log_bytes,
            r.cache_bytes == api_cache_bytes + model_cache_bytes + temp_bytes,
            r.total_bytes == r.cache_bytes + log_bytes,
    {
        let cache_bytes = api_cache_bytes + model_cache_bytes + temp_bytes;
        CacheUsage {
            total_bytes: cache_bytes + log_bytes,
            cache_bytes,
            log_bytes,
            api_cache_bytes,
            model_cache_bytes,
            temp_bytes,
        }
    }
}

/// Whether the files are in order of modification time, oldest first.
pub open spec fn oldest_first(files: Seq<(String, i128, u64)>) -> bool {
    forall|a: int, b: int| 0 <= a < b < files.len() ==> files[a].1 <= files[b].1
}

/// The files ordered by modification time, oldest first; the files are the same, only their
/// order changes.
pub fn sort_oldest_first(files: Vec<(String, i128, u64)>) -> (r: Vec<(String, i128, u64)>)
    ensures
        oldest_first(r@),
        r@.to_multiset() == files@.to_multiset(),
{
    let ghost input = files@;
    let mut rest = files;
    let mut out: Vec<(String, i128, u64)> = Vec::new();
    // Take the files from the back; each goes before the first later file of greater time.
    while rest.len() > 0
        invariant
            oldest_first(out@),
            out@.to_multiset().add(rest@.to_multiset()) == input.to_multiset(),
        decreases rest.len(),
    {
        let ghost before_rest = rest@;
        let ghost before_out = out@;
        let f = rest.pop().unwrap();
        proof {
            assert(before_rest =~= rest@.push(f));
        }
        let key = f.1;
        let n = out.len();
        let mut p: usize = 0;
        while p < n && out[p].1 < key
            invariant
                p <= n,
                n == out@.len(),
                forall|k: int| 0 <= k < p ==> out@[k].1 < key,
            decreases n - p,
        {
            p = p + 1;
        }
        out.insert(p, f);
        proof {
            assert forall|a: int, b: int| 0 <= a < b < out@.len() implies out@[a].1 <= out@[b].1 by {
                if a < p && b == p {
                } else if a < p && b > p {
                    assert(out@[b] == before_out[b - 1]);
                    if p < n {
                        assert(before_out[p as int].1 >= key);
                        assert(before_out[p as int].1 <= before_out[b - 1].1);
                    }
                } else if a == p {
                    assert(out@[b] == before_out[b - 1]);
                    assert(before_out[p as int].1 >= key);
                    assert(before_out[p as int].1 <= before_out[b - 1].1);
                } else if a > p {
                    assert(out@[a] == before_out[a - 1]);
                    assert(out@[b] == before_out[b - 1]);
                } else {
                    assert(out@[a] == before_out[a]);
                    assert(out@[b] == before_out[b]);
                }
            }
            assert(out@ == before_out.insert(p as int, f));
            vstd::seq_lib::to_multiset_insert(before_out, p as int, f);
            vstd::seq_lib::to_multiset_build(rest@, f);
            assert(out@.to_multiset().add(rest@.to_multiset()) =~= before_out.to_multiset().add(before_rest.to_multiset()));
        }
    }
    proof {
        assert(rest@.to_multiset() =~= vstd::multiset::Multiset::empty());
        assert(out@.to_multiset().add(vstd::multiset::Multiset::empty()) =~= out@.to_multiset());
    }
    out
}

// ---------------------------------------------------------------- forced cleanup

/// What a cleanup did.
#[derive(Debug, Clone, Copy, PartialEq, Eq, Structural)]
pub struct CleanupStats {
    pub files_removed: u32,
    pub space_freed_bytes: u64,
    pub elapsed_ms: u64,
    /// Unix seconds.
    pub cleaned_at: i64,
}

/// The order in which a forced cleanup empties the caches: temporary files, API responses,
/// model outputs, logs.
pub open spec fn forced_order() -> Seq<CacheType> {
    seq![CacheType::TempFiles, CacheType::ApiResponse, CacheType::ModelOutput, CacheType::Logs]
}

/// The bytes in a megabyte.
pub open spec fn mb(n: u64) -> int {
    n * 1048576
}

/// The progress of a cleanup down to a target size: how much must go, how much went, and how
/// many files.  Files are removed, oldest first and cache by cache in `forced_order`, for as
/// long as `wants_more` says so.
pub struct SizeCleanup {
    space_to_free: u64,
    space_freed: u64,
    files_removed: u32,
}

/// The progress as numbers: bytes to free, bytes freed, files removed.
pub struct SizeCleanupView {
    pub space_to_free: u64,
    pub space_freed: u64,
    pub files_removed: u32,
}

impl View for SizeCleanup {
    type V = SizeCleanupView;

    closed spec fn view(&self) -> SizeCleanupView {
        SizeCleanupView { space_to_free: self.space_to_free, space_freed: self.space_freed, files_removed: self.files_removed }
    }
}

impl SizeCleanup {
    /// Starts a cleanup of the caches down to `target_mb` megabytes, given their `usage`: none
    /// is needed when the total is within the target; otherwise the excess must be freed.
    pub fn start(usage: &CacheUsage, target_mb: u64) -> (r: Option<SizeCleanup>)
        requires
            mb(target_mb) <= u64::MAX,
        ensures
            r is None <==> usage.total_bytes <= mb(target_mb),
            r matches Some(c) ==> c@ == (SizeCleanupView {
                space_to_free: (usage.total_bytes - mb(target_mb)) as u64,
                space_freed: 0,
                files_removed: 0,
            }),
    {
        let target_bytes = target_mb * 1048576;
        if usage.total_bytes <= target_bytes {
            None
        } else {
            Some(SizeCleanup { space_to_free: usage.total_bytes - target_bytes, space_freed: 0, files_removed: 0 })
        }
    }

    /// The caches in the order they are emptied (`forced_order`).
    pub fn cleanup_order() -> (r: Vec<CacheType>)
        ensures
            r@ == forced_order(),
    {
        let v = vec![CacheType::TempFiles, CacheType::ApiResponse, CacheType::ModelOutput, CacheType::Logs];
        assert(v@ =~= forced_order());
        v
    }

    /// Whether more must be freed.
    pub fn wants_more(&self) -> (r: bool)
        ensures
            r == (self@.space_freed < self@.space_to_free),
    {
        self.space_freed < self.space_to_free
    }

    /// The bytes freed so far.
    pub fn space_freed(&self) -> (r: u64)
        ensures
            r == self@.space_freed,
    {
        self.space_freed
    }

    /// The files removed so far.
    pub fn files_removed(&self) -> (r: u32)
        ensures
            r == self@.files_removed,
    {
        self.files_removed
    }

    /// Records that a file of `size` bytes was removed.
    pub fn record_removal(&mut self, size: u64)
        requires
            old(self)@.space_freed < old(self)@.space_to_free,
            old(self)@.space_freed + size <= u64::MAX,
            old(self)@.files_removed < u32::MAX,
        ensures
            final(self)@ == (SizeCleanupView {
                space_freed: (old(self)@.space_freed + size) as u64,
                files_removed: (old(self)@.files_removed + 1) as u32,
                ..old(self)@
            }),
    {
        self.space_freed = self.space_freed + size;
        self.files_removed = self.files_removed + 1;
    }

    /// The statistics of the cleanup, which took `elapsed_ms` and ended at `now`.
    pub fn finish(&self, elapsed_ms: u64, now: i64) -> (r: CleanupStats)
        ensures
            r == (CleanupStats {
                files_removed: self@.files_removed,
                space_freed_bytes: self@.space_freed,
                elapsed_ms,
                cleaned_at: now,
            }),
    {
        CleanupStats { files_removed: self.files_removed, space_freed_bytes: self.space_freed, elapsed_ms, cleaned_at: now }
    }
}

} // verus!
