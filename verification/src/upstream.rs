//! What is fetched from the upstream repository, and the service that fetches it.
use vstd::prelude::*;

verus! {

/// A single entry returned by the GitHub Git Trees API.
#[derive(Debug, Clone)]
pub struct TreeEntry {
    /// Path of the entry relative to the repository root.
    pub path: String,
    /// Entry type: `"blob"` (file) or `"tree"` (directory).
    pub type_: String,
}

/// Result of fetching a single file from the upstream repository.
#[derive(Debug)]
pub enum FetchResult {
    /// The file was found and its raw bytes are returned.
    Content(Vec<u8>),
    /// The file does not exist in the upstream repository at the given ref.
    NotFound,
}

/// Fetches files from an upstream GitHub repository.  Implementations talk
/// to the network (or stand in for it in tests); nothing is promised of what
/// they return.
pub trait UpstreamFetcher {
    /// Whether `r` is how this fetcher answers a request for the file at
    /// `path` of `repo` at `ref_`.  Each implementation may give it its own
    /// meaning (one that keeps this default states nothing of its answers);
    /// code generic over fetchers assumes nothing of it, so it only ties an
    /// answer to the request it was given for.
    open spec fn answers(&self, repo: Seq<char>, ref_: Seq<char>, path: Seq<char>, r: anyhow::Result<
        FetchResult,
    >) -> bool {
        true
    }

    /// Fetch the file at `path` from `repo` at git `ref_`; fails when the
    /// service cannot be reached or answers with a failure other than
    /// "not found".
    fn fetch(&self, repo: &str, ref_: &str, path: &str) -> (r: anyhow::Result<FetchResult>)
        ensures
            self.answers(repo@, ref_@, path@, r),
    ;

    /// Recursively list all files (`"blob"` entries only) in `repo` at git
    /// `ref_`.
    fn list_all_files(&self, repo: &str, ref_: &str) -> anyhow::Result<Vec<TreeEntry>>;

    /// Resolve a tag or ref to its underlying commit SHA (40 hex characters).
    fn resolve_tag_sha(&self, repo: &str, tag: &str) -> anyhow::Result<String>;
}

/// What a fetch answered, taken by value, its failure given as a message.
pub enum FetchAnswer {
    /// The fetch failed with this message.
    Failed(Seq<char>),
    /// The file does not exist upstream.
    Missing,
    /// The file's bytes.
    Found(Seq<u8>),
}

/// A fetch result taken by value.
pub open spec fn fetch_view(r: Result<FetchResult, String>) -> FetchAnswer {
    match r {
        Err(m) => FetchAnswer::Failed(m@),
        Ok(FetchResult::NotFound) => FetchAnswer::Missing,
        Ok(FetchResult::Content(b)) => FetchAnswer::Found(b@),
    }
}

/// What a fetch answered, its failure left as it is: `f` stands for the raw
/// answer `raw` (a failure for a failure, whatever its message).
pub open spec fn answer_of(raw: anyhow::Result<FetchResult>, f: FetchAnswer) -> bool {
    match raw {
        Ok(FetchResult::Content(b)) => f == FetchAnswer::Found(b@),
        Ok(FetchResult::NotFound) => f == FetchAnswer::Missing,
        Err(_) => f is Failed,
    }
}

/// Fetch `path` through `fetcher`, its failure turned into its message.
/// The result is the fetcher's answer for that very request.
pub fn fetch_file<F: UpstreamFetcher + ?Sized>(
    fetcher: &F,
    repo: &str,
    ref_: &str,
    path: &str,
) -> (r: Result<
    FetchResult,
    String,
>)
    ensures
        exists|raw: anyhow::Result<FetchResult>|
            #[trigger] fetcher.answers(repo@, ref_@, path@, raw) && answer_of(raw, fetch_view(r)),
{
    let raw = fetcher.fetch(repo, ref_, path);
    let ghost g = raw;
    match raw {
        Ok(x) => Ok(x),
        Err(e) => Err(e.to_string()),
    }
}


} // verus!
