//! Retrieval pipeline for a creator's published posts: scrape the post
//! listing, browse each post for downloadable files, and download them with
//! restart-safe temporary names, while reporting progress through one event
//! stream.
//!
//! The library holds the verified logic of the pipeline: range filtering,
//! response decoding, file planning and template rendering, the scrape and
//! download state machines, and the engine's event bookkeeping. The
//! surrounding process performs the network and filesystem work and feeds
//! results back in as plain values.
use vstd::prelude::*;

pub mod conf;
pub mod decode;
pub mod duration;
pub mod engine;
pub mod file;
pub mod post;
pub mod range;
pub mod strutil;
pub mod template;
pub mod worker;

pub use conf::default_jobs;
pub use conf::default_out;
pub use conf::default_range;
pub use conf::default_template;
pub use conf::resolve;
pub use conf::Conf;
pub use conf::Overrides;
pub use conf::Settings;
pub use decode::detail_decode_spec;
pub use decode::page_decode_spec;
pub use decode::profile_decode_spec;
pub use duration::RandomDuration;
pub use engine::Engine;
pub use engine::Phase;
pub use file::decode_detail;
pub use file::DetailV;
pub use file::PreviewV;
pub use file::finalize_files;
pub use file::plan_candidates;
pub use file::Candidate;
pub use file::File;
pub use file::FileID;
pub use file::FileRef;
pub use file::lemma_collect_idempotent;
pub use file::plan_text;
pub use file::PostDetail;
pub use file::Preview;
pub use file::TextPlan;
pub use post::decode_page;
pub use post::decode_profile;
pub use post::filter_in_range;
pub use post::filter_in_range_spec;
pub use post::in_range;
pub use post::lemma_scrape_membership;
pub use post::lemma_scrape_output;
pub use post::parse_url;
pub use post::Post;
pub use post::PostID;
pub use post::PostV;
pub use post::Profile;
pub use post::ScrapeSession;
pub use post::ScrapeStep;
pub use range::lemma_literal_round_trip;
pub use range::IdOrder;
pub use range::Range;
pub use range::RangeParseError;
pub use strutil::parse_u64;
pub use strutil::to_path_safe;
pub use strutil::u64_to_string;
pub use template::candidate_dest;
pub use template::normalize_template;
pub use template::render_template;
pub use template::text_dest;
pub use worker::Download;
pub use worker::Prog;

verus! {

/// The base of every API endpoint.
pub const API_BASE: &'static str = "https://kemono.cr/api/v1";

/// How many posts one listing page carries.
pub const PAGE_SIZE: u64 = 50;

/// How often a rate-limited listing request is retried before the response
/// is surfaced as a fatal error.
pub const SCRAPE_RETRY_TIMES: u8 = 3;

/// The status with which the server asks for a pause.
pub const STATUS_RATE_LIMITED: u16 = 429;

/// The pause between successive listing requests, in milliseconds.
pub const SCRAPE_INTERVAL_MS: u64 = 500;

/// The cooldown before a rate-limited listing request is retried, in
/// milliseconds.
pub const SCRAPE_RETRY_AFTER_MS: u64 = 120000;

/// The least politeness pause after browsing one post, in milliseconds.
pub const BROWSE_INTERVAL_MIN_MS: u64 = 4000;

/// The bound under which the jittered browse pause stays, in milliseconds.
pub const BROWSE_INTERVAL_MAX_MS: u64 = 4400;

/// How many posts are browsed concurrently.
pub const POST_BROWSERS: usize = 5;

/// The request timeout, in seconds.
pub const TIMEOUT_SECS: u64 = 30;

/// What the engine reports on the externally visible stream: pipeline
/// milestones and per-file progress. The engine is the sole producer;
/// consumers render and never feed anything back.
#[derive(Debug)]
pub enum Event {
    /// The creator profile has been fetched.
    Profile(Profile),
    /// The listing is scraped; the payload is how many posts are in range.
    Posts(usize),
    /// No more posts will be announced.
    PostsExhausted,
    /// One post's files were collected.
    Files(Vec<File>),
    /// Every post is browsed; no more files will be announced.
    FilesExhausted,
    /// A file was taken off the download queue.
    Enqueue(FileID),
    /// A file's connection is up; the payload is its total size in bytes.
    Init(FileID, u64),
    /// A file received data; the payload is its cumulative bytes.
    Chunk(FileID, u64),
    /// A file is fully on disk under its final name.
    Fin(FileID),
    /// Every file is accounted for; the stream ends.
    Clear,
}

/// An error of the pipeline, tagged by stage. Profile and scrape errors are
/// fatal to the run; browse and download errors are scoped to the one post
/// or file they name and never abort sibling work.
#[derive(Debug)]
pub enum Error {
    /// Fetching the creator profile failed; fatal.
    Profile(String),
    /// Scraping the post listing failed; fatal.
    Scrape(String),
    /// Browsing the named post failed; the post yields no files, siblings
    /// go on.
    Browse(PostID, String),
    /// Downloading the named file failed; its temporary file stays on disk,
    /// siblings go on.
    Download(FileID, String),
}

impl Error {
    /// Whether the error ends the whole run.
    pub fn is_fatal(&self) -> (r: bool)
        ensures
            r == (self is Profile || self is Scrape),
    {
        match self {
            Error::Profile(_) => true,
            Error::Scrape(_) => true,
            Error::Browse(_, _) => false,
            Error::Download(_, _) => false,
        }
    }

    /// The carried cause, for display.
    pub fn message(&self) -> (r: String)
        ensures
            match self {
                Error::Profile(m) => r@ == m@,
                Error::Scrape(m) => r@ == m@,
                Error::Browse(_, m) => r@ == m@,
                Error::Download(_, m) => r@ == m@,
            },
    {
        match self {
            Error::Profile(m) => m.clone(),
            Error::Scrape(m) => m.clone(),
            Error::Browse(_, m) => m.clone(),
            Error::Download(_, m) => m.clone(),
        }
    }
}

impl Clone for Error {
    fn clone(&self) -> (r: Self)
        ensures
            r == *self,
    {
        match self {
            Error::Profile(m) => Error::Profile(m.clone()),
            Error::Scrape(m) => Error::Scrape(m.clone()),
            Error::Browse(id, m) => Error::Browse(*id, m.clone()),
            Error::Download(id, m) => Error::Download(*id, m.clone()),
        }
    }
}

} // verus!
