//! Finds package-manager dependency folders in a file tree and decides which
//! of them to mark as excluded from backup and sync services.
//!
//! The [`Walker`] takes the entries of a depth-first traversal one at a time
//! and answers each with an [`Action`]: go on, prune the subtree, or perform a
//! file test or a backend call and report the answer as an [`Event`]. The
//! caller owns the traversal and every outside effect.

mod backend;
mod dropbox;
mod laws;
mod matcher;
mod sync_folder;
mod walker;

pub use backend::{
    already_excluded, excluded_marker, first_field, is_already_excluded, size_of_path, trimmed,
};
pub use dropbox::{DropBox, last_segment};
pub use laws::{
    Scene, after, answer, awaits, excluded_after, first_hit, hit, law_exclusion_list_first,
    law_match_is_excluded, law_match_prunes, law_name_alone_descends, law_read_only_manifest,
    law_second_visit_adds_nothing, law_second_walk_adds_nothing, lemma_visit, outcome,
    outcome_checking, room_for, settle, visit, walk_run,
};
pub use matcher::{MatcherTable, manifests_for};
pub use sync_folder::{
    base64_decoded, bytes_view, configured_folder, find_byte, folder_from_host_db,
    folder_from_maestral, get_folder, ini_lookup, second_line, text_view, utf8_text,
};
pub use walker::{
    Action, Event, Happening, Stage, Stats, Step, WalkConfig, WalkState, Walker, fits, step_spec,
};
