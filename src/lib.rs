//! Reloading of shared libraries while the host process keeps running.
//!
//! The library holds the decisions of a reload engine: how a library's file
//! name is formed, in which order candidate locations are searched, where a
//! shadow copy is staged, how long a copy is retried, which loaded libraries
//! a change on disk concerns, and the order in which the host is told about
//! a reload. Opening libraries, touching the file system and watching it for
//! changes are done by the caller, who feeds the results back in.

mod copy;
mod error;
mod naming;
mod paths;
mod registry;
mod reload;
mod resolve;
mod shadow;

pub use copy::{COPY_ATTEMPTS, COPY_PAUSE_MS, CopyAction, CopyRetry, is_timeout};
pub use error::{Error, debug_of, description_of, message_of};
pub use naming::{
    Platform, PlatformName, dynamiclib_name_of, get_dynamiclib_name, get_library_name,
    lemma_format_template, library_name_of, name_prefix, name_suffix,
};
pub use paths::{file_name_of, has_no_separator, is_plain_name, join_of, parent_of};
pub use registry::{
    Lib, LibView, Registry, dir_to_watch, index_of_original, opt_view, registered, reload_matches,
    should_reload, swap_removed, unique_originals, watch_covers,
};
pub use reload::{
    PassStage, ReloadAction, ReloadPass, StageKind, Step, UpdateState, advance, before_answered,
    last_match, lemma_reload_protocol, outcome_announced, reloaded_view, run_end, stage_kind,
    step_of,
};
pub use resolve::{
    Search, ancestors, ancestry, candidates_of, find_library, first_found, get_search_paths,
    joined, lemma_first_found, lemma_nothing_found, lemma_working_directory_first, parents_within, resolve, resolved,
    search_candidates, views,
};
pub use shadow::{
    LoadPlan, decimal, decimal_of, digit_of, format_filename, lemma_decimal_injective, lemma_fresh_copies_differ,
    lemma_shadow_names_differ, load_plan, shadow_file_name,
    shadow_name_of, staged_path_of,
};
