//! Core of a versioned database change-script runner: an immutable,
//! version-sorted registry of scripts, applied-record bookkeeping, and the
//! consistency protocol (dirty-state detection, checksum validation,
//! missing-version handling) behind forward application and single-step
//! reversal. Database adapters and the command-line shell are collaborators
//! that consume this crate; they live outside it.

mod error;
mod laws;
mod opt;
mod seeder;
mod seeds;
mod seeds_type;

pub use error::{spec_message, SeedsError};
pub use laws::{
    lemma_dirty_append, lemma_dirty_version_spec, lemma_drift_detected,
    lemma_first_missing_append, lemma_first_missing_spec, lemma_lookup_append, lemma_lookup_spec,
    lemma_revert_single_step, lemma_run_idempotent, lemma_run_plan_shape,
    lemma_validate_distinct_versions,
};
pub use opt::{Command, DatabaseCommand, DatabaseOpt, Opt, SeedsCommand, SeedsOpt};
pub use seeder::{
    contains_version, dirty_version, dup_at, find_applied, has_kind, is_sorted_by_version,
    mixed_kinds, registry_contains, sort_by_version, sorted_by_version, spec_dirty_version,
    spec_first_dup,
    spec_first_missing, spec_lookup, spec_revert_index, spec_run_plan,
    validate_applied_seeds, RunPlan, Seeder,
};
pub use seeds::{
    checksum_eq, lemma_version_monotonic, spec_version_of, valid_timestamp,
    version_from_timestamp, AppliedSeeds, Seeds,
};
pub use seeds_type::{
    ends_with_spec, seeds_file_name, spec_file_content, spec_from_filename, spec_label,
    spec_suffix, spec_underscored, str_ends_with, SeedsType,
};
