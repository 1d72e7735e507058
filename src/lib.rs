//! Finds successor tags for the container images named in Dockerfiles.
//!
//! The library parses image references and tags, orders and compares tags,
//! selects an upgrade under a strategy, reads and rewrites the `FROM` lines of
//! Dockerfiles, normalises registry answers and keeps a cache of tag lists.
//! Fetching from registries and touching the disk is left to the caller.
use vstd::prelude::*;

pub mod cache;
pub mod cli;
pub mod dockerfile;
pub mod error;
pub mod image;
pub mod laws;
pub mod registry;
pub mod round_trip;
pub mod select;
pub mod tag;
pub mod tag_order;
pub mod tag_text;
pub mod text;
pub mod update;

pub use cache::{cache_file_name, is_cache_fresh, load_cache_file, TagCache, TagSource, DURATION_HOUR_AS_SECS};
pub use cli::{
    Cli, CommonOptions, InputArguments, Mode, MultiFileArguments, OverviewArguments,
    SingleFileArguments,
};
pub use dockerfile::{DockerInstruction, Dockerfile, DockerfileUpdate};
pub use error::{Error, ParseError};
pub use image::{ContainerImage, ImageMetadata, Registry};
pub use registry::{
    DockerHubResponse, DockerHubResult, HubImage, McrResponseEntry, PageOutcome, PagerStep,
    RegistryResponse, TagPager, TAG_RESULT_LIMIT,
};
pub use select::{find_candidate_tag, sort_dedup, Strategy};
pub use tag::{Tag, TagVariant};
pub use update::handle_file;

verus! {

} // verus!
