//! A verified core for a small service that triggers pruning of backup
//! snapshots held under a fixed repository root.
//!
//! The service's surrounding process accepts HTTP requests, deserializes
//! them, and runs the external backup tool as a subprocess; none of that
//! is here. This library holds everything the service decides: whether a
//! request is authorized, whether the named repository stays confined
//! under the repository root, and exactly which argument tokens and which
//! environment variable the subprocess invocation is built from.

mod command;
mod guard;
mod pipeline;
mod request;

pub use command::ForgetCommand;
pub use command::args_view;
pub use command::build_forget_command;
pub use command::command_matches;
pub use command::forget_args;
pub use command::joined_repo_path;
pub use command::lemma_dry_run_includes_flag;
pub use command::lemma_empty_tag_omits_tag_flag;
pub use command::lemma_joined_path_stays_under_root;
pub use command::lemma_no_dry_run_omits_flag;
pub use command::lemma_tag_flag_two_tokens;
pub use guard::dotdot_segment_at;
pub use guard::has_traversal_segment;
pub use guard::lemma_confined_repo_never_escapes_root;
pub use guard::lemma_depth_concat;
pub use guard::lemma_depth_nonneg;
pub use guard::lemma_no_traversal_segments;
pub use guard::lemma_path_segments_of_join;
pub use guard::path_segments;
pub use guard::repo_confined;
pub use guard::repo_name_is_confined;
pub use guard::resolution_escapes;
pub use guard::resolved_depth;
pub use guard::segment_depth_change;
pub use guard::split_segments;
pub use pipeline::Decision;
pub use pipeline::RESTIC_REPOS_PATH;
pub use pipeline::authorize;
pub use pipeline::decision_status;
pub use pipeline::process_request;
pub use pipeline::root_banner;
pub use request::ForgetRequest;
