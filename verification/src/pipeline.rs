//! The request pipeline: validate, authenticate, build, decide.
//!
//! Every inbound forget call is reduced to one `Decision`. A body that did
//! not parse is rejected outright; a caller whose credential differs from
//! the configured secret is turned away before any other field is even
//! looked at; a repository name that the confinement guard refuses is
//! rejected; only then is the subprocess invocation built. The surrounding
//! process spawns a subprocess only for a `Dispatch` decision, so the
//! decisions here are exactly the side effects the service can have.

use vstd::prelude::*;

use crate::command::ForgetCommand;
use crate::command::build_forget_command;
use crate::command::command_matches;
use crate::guard::repo_confined;
use crate::guard::repo_name_is_confined;
use crate::request::ForgetRequest;

verus! {

/// The fixed repository root directory that every repository name is joined
/// under.
pub const RESTIC_REPOS_PATH: &'static str = "/rfs_repos";

/// The fixed identifying string served at the service's root path.
pub fn root_banner() -> (s: &'static str)
    ensures
        s@ == "ResticSecureForget"@,
{
    "ResticSecureForget"
}

/// The outcome of one forget call. Only `Dispatch` carries work for the
/// subprocess executor; every other outcome leaves the system untouched.
pub enum Decision {
    /// The body did not parse into a well-shaped request.
    BadRequest,
    /// The caller's credential does not match the configured secret.
    Unauthorized,
    /// The repository name would not stay confined under the repository
    /// root.
    InvalidRepo,
    /// The request is valid and authorized; run this invocation.
    Dispatch(ForgetCommand),
}

/// The HTTP status code reported for each decision: rejected bodies and
/// unconfined repository names are client errors, an authentication
/// mismatch says only that it is unauthorized, and a dispatched request is
/// acknowledged at once.
pub open spec fn decision_status(d: Decision) -> u16 {
    match d {
        Decision::BadRequest => 400,
        Decision::Unauthorized => 401,
        Decision::InvalidRepo => 400,
        Decision::Dispatch(_) => 200,
    }
}

impl Decision {
    /// The HTTP status code of this decision, exactly `decision_status`.
    pub fn status_code(&self) -> (s: u16)
        ensures
            s == decision_status(*self),
    {
        match self {
            Decision::BadRequest => 400,
            Decision::Unauthorized => 401,
            Decision::InvalidRepo => 400,
            Decision::Dispatch(_) => 200,
        }
    }
}

/// Decides whether the caller's credential equals the configured secret.
pub fn authorize(req: &ForgetRequest, secret: &str) -> (b: bool)
    ensures
        b == (req.api_key@ == secret@),
{
    let configured = String::from_str(secret);
    req.api_key == configured
}

/// The whole pipeline on one parsed (or unparseable) request body.
///
/// An unparsed body is rejected with no further action; a credential
/// mismatch is turned away before any other field is used, whatever those
/// fields hold; an unconfined repository name is rejected; and a valid,
/// authorized request yields exactly the invocation `command_matches`
/// describes. A subprocess can start only from a `Dispatch` decision, so
/// the three rejections are side-effect-free by construction.
pub fn process_request(parsed: Option<ForgetRequest>, secret: &str, root: &str) -> (d: Decision)
    ensures
        parsed is None <==> d is BadRequest,
        parsed matches Some(req) ==> {
            &&& (req.api_key@ != secret@ <==> d is Unauthorized)
            &&& (req.api_key@ == secret@ && !repo_confined(req.repo@) <==> d is InvalidRepo)
            &&& (req.api_key@ == secret@ && repo_confined(req.repo@) <==> d is Dispatch)
            &&& (d matches Decision::Dispatch(c) ==> command_matches(c, root@, req))
        },
{
    match parsed {
        None => Decision::BadRequest,
        Some(req) => {
            if !authorize(&req, secret) {
                Decision::Unauthorized
            } else if !repo_name_is_confined(req.repo.as_str()) {
                Decision::InvalidRepo
            } else {
                Decision::Dispatch(build_forget_command(root, req))
            }
        },
    }
}

} // verus!
