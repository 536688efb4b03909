//! The one transient entity of the service.
//!
//! Each call of the forget operation carries one `ForgetRequest`, built once
//! from the request body, owned by the task handling that call, and
//! discarded after dispatch. Nothing here is shared or mutated.

use vstd::prelude::*;

verus! {

/// A parsed forget request.
///
/// `repo` names a subdirectory under the fixed repository root; `passwd` is
/// the repository credential the backup tool itself needs; `keep_within` is
/// a retention window in the tool's own duration syntax, passed through
/// verbatim; an empty `tag` means no tag filter; `dry_run` asks the tool to
/// simulate without deleting; `api_key` is the caller's shared-secret
/// credential for this service.
pub struct ForgetRequest {
    pub repo: String,
    pub passwd: String,
    pub keep_within: String,
    pub tag: String,
    pub dry_run: bool,
    pub api_key: String,
}

} // verus!
