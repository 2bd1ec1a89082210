//! Discovery of hosted installer download links.
//!
//! Candidate URLs are generated from a deterministic path template over a
//! platform/architecture target, a version string and an integer build
//! number. A bounded-concurrency scheduler drains a build-number range per
//! platform under cooperative pause and cancellation, an adaptive strategy
//! widens the scanned window when no fixed range is given, and an aggregator
//! keeps the highest build number found per platform.
//!
//! The library is the decision core: it generates and parses URLs, validates
//! requests, admits probes, tracks progress and aggregates results. The
//! network itself (issuing the existence checks) is the caller's concern;
//! the caller feeds each probe's outcome back into the scheduler.

pub mod adaptive;
pub mod aggregate;
pub mod gas;
pub mod platform;
pub mod progress;
pub mod request;
pub mod scheduler;
pub mod text;
pub mod url;
pub mod version;

pub use platform::PlatformArch;
pub use platform::PlatformArch as Platform;
pub use aggregate::{get_latest_urls, AggregatedResult};
pub use adaptive::AdaptiveSearch;
pub use progress::{ProgressTracker, SearchEvent};
pub use request::{
    build_run_plan, parse_range, selected_platforms, RequestError, RunPlan, SearchRequest,
};
pub use scheduler::{ProbeOutcome, ProbeTask, ScanState, Scheduler};
pub use url::UrlGenerator;
pub use version::{
    applies, extract_base_version, filter_valid_versions, short_version, should_use_win_x86,
    validate_version,
};
