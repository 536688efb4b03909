//! Building the backup tool's invocation.
//!
//! An authorized request is mapped to a bounded, explicit list of argument
//! tokens for the external backup tool, plus one environment variable that
//! carries the repository credential. The tokens are held as discrete
//! strings — they are never concatenated into a shell command line — so no
//! field of the request can smuggle extra arguments or shell metacharacters
//! into the invocation.

use vstd::prelude::*;

use crate::guard::lemma_depth_concat;
use crate::guard::lemma_depth_nonneg;
use crate::guard::lemma_no_traversal_segments;
use crate::guard::lemma_path_segments_of_join;
use crate::guard::path_segments;
use crate::guard::repo_confined;
use crate::guard::resolved_depth;
use crate::request::ForgetRequest;

verus! {

/// The repository named by the request, joined under the repository root.
pub open spec fn joined_repo_path(root: Seq<char>, repo: Seq<char>) -> Seq<char> {
    root + "/"@ + repo
}

/// The exact argument tokens of the backup tool's `forget` invocation:
/// `forget -r <root>/<repo> --keep-within <window> [--tag <tag>]
/// [--dry-run] --prune`. The `--tag` pair appears exactly when `tag` is
/// non-empty, `--dry-run` exactly when `dry_run` holds, and `--prune` is
/// always the final token.
pub open spec fn forget_args(
    root: Seq<char>,
    repo: Seq<char>,
    keep_within: Seq<char>,
    tag: Seq<char>,
    dry_run: bool,
) -> Seq<Seq<char>> {
    seq!["forget"@, "-r"@, joined_repo_path(root, repo), "--keep-within"@, keep_within] + (
    if tag.len() > 0 {
        seq!["--tag"@, tag]
    } else {
        Seq::empty()
    }) + (if dry_run {
        seq!["--dry-run"@]
    } else {
        Seq::empty()
    }) + seq!["--prune"@]
}

/// The character sequences of a list of argument tokens.
pub open spec fn args_view(args: Seq<String>) -> Seq<Seq<char>> {
    args.map_values(|s: String| s@)
}

/// A fully built subprocess invocation: the program to run, its argument
/// tokens in order, and the single environment variable handed to it. The
/// credential travels only in `env_value`, never among the tokens.
pub struct ForgetCommand {
    pub program: String,
    pub args: Vec<String>,
    pub env_key: String,
    pub env_value: String,
}

/// What a correctly built invocation looks like for a request: the backup
/// tool as the program, exactly the `forget_args` tokens, and the repository
/// credential under the environment variable the tool reads it from.
pub open spec fn command_matches(c: ForgetCommand, root: Seq<char>, req: ForgetRequest) -> bool {
    &&& c.program@ == "restic"@
    &&& args_view(c.args@) == forget_args(root, req.repo@, req.keep_within@, req.tag@, req.dry_run)
    &&& c.env_key@ == "RESTIC_PASSWORD"@
    &&& c.env_value@ == req.passwd@
}

/// Builds the backup tool's invocation for a request: the argument list of
/// `forget_args` as discrete tokens, and the repository credential as the
/// subprocess's environment variable.
pub fn build_forget_command(root: &str, req: ForgetRequest) -> (c: ForgetCommand)
    ensures
        command_matches(c, root@, req),
{
    let mut path = String::from_str(root);
    path.append("/");
    path.append(req.repo.as_str());

    let mut args: Vec<String> = Vec::new();
    args.push(String::from_str("forget"));
    args.push(String::from_str("-r"));
    args.push(path);
    args.push(String::from_str("--keep-within"));
    args.push(req.keep_within);
    if !req.tag.as_str().is_empty() {
        args.push(String::from_str("--tag"));
        args.push(req.tag);
    }
    if req.dry_run {
        args.push(String::from_str("--dry-run"));
    }
    args.push(String::from_str("--prune"));

    let c = ForgetCommand {
        program: String::from_str("restic"),
        args,
        env_key: String::from_str("RESTIC_PASSWORD"),
        env_value: req.passwd,
    };
    proof {
        assert(args_view(c.args@) =~= forget_args(
            root@,
            req.repo@,
            req.keep_within@,
            req.tag@,
            req.dry_run,
        ));
    }
    c
}

/// Path-confinement law for the joined path: `<root>/<name>` splits into
/// the root's own segments followed by the name's, and for a confined name
/// no prefix of those trailing segments ever resolves the path above the
/// resolved root directory.
pub proof fn lemma_joined_path_stays_under_root(root: Seq<char>, repo: Seq<char>)
    requires
        repo_confined(repo),
    ensures
        path_segments(joined_repo_path(root, repo)) == path_segments(root) + path_segments(repo),
        forall|k: int|
            0 <= k <= path_segments(repo).len() ==> resolved_depth(
                #[trigger] (path_segments(root) + path_segments(repo)).take(
                    path_segments(root).len() + k,
                ),
            ) >= resolved_depth(path_segments(root)),
{
    lemma_path_segments_of_join(root, repo);
    lemma_no_traversal_segments(repo);
    let a = path_segments(root);
    let b = path_segments(repo);
    assert forall|k: int|
        0 <= k <= b.len() implies resolved_depth(
        #[trigger] (a + b).take(a.len() + k),
    ) >= resolved_depth(a) by {
        assert((a + b).take(a.len() as int + k) =~= a + b.take(k));
        lemma_depth_concat(a, b.take(k));
        assert(forall|m: int| 0 <= m < b.take(k).len() ==> b.take(k)[m] != ".."@);
        lemma_depth_nonneg(b.take(k));
    }
}

proof fn lemma_joined_path_has_slash(root: Seq<char>, repo: Seq<char>)
    ensures
        0 <= root.len() < joined_repo_path(root, repo).len(),
        joined_repo_path(root, repo)[root.len() as int] == '/',
{
    reveal_strlit("/");
}

/// Tag-filter law, empty case: with an empty tag filter the argument list
/// omits the `--tag` flag entirely. The one retention window this cannot
/// hold for is the literal text `--tag` itself, which the law leaves out.
pub proof fn lemma_empty_tag_omits_tag_flag(
    root: Seq<char>,
    repo: Seq<char>,
    keep_within: Seq<char>,
    tag: Seq<char>,
    dry_run: bool,
)
    requires
        tag.len() == 0,
        keep_within != "--tag"@,
    ensures
        !forget_args(root, repo, keep_within, tag, dry_run).contains("--tag"@),
{
    reveal_strlit("--tag");
    reveal_strlit("forget");
    reveal_strlit("-r");
    reveal_strlit("--keep-within");
    reveal_strlit("--dry-run");
    reveal_strlit("--prune");
    lemma_joined_path_has_slash(root, repo);
    let args = forget_args(root, repo, keep_within, tag, dry_run);
    let joined = joined_repo_path(root, repo);
    if dry_run {
        assert(args =~= seq![
            "forget"@,
            "-r"@,
            joined,
            "--keep-within"@,
            keep_within,
            "--dry-run"@,
            "--prune"@,
        ]);
    } else {
        assert(args =~= seq!["forget"@, "-r"@, joined, "--keep-within"@, keep_within, "--prune"@]);
    }
    assert(joined != "--tag"@) by {
        if joined == "--tag"@ {
            let l = root.len() as int;
            assert(0 <= l < 5);
            assert("--tag"@[l] == '/');
            assert("--tag"@[0] == '-');
            assert("--tag"@[1] == '-');
            assert("--tag"@[2] == 't');
            assert("--tag"@[3] == 'a');
            assert("--tag"@[4] == 'g');
        }
    }
    assert("--tag"@.len() == 5);
    assert("forget"@.len() == 6);
    assert("-r"@.len() == 2);
    assert("--keep-within"@.len() == 13);
    assert("--dry-run"@.len() == 9);
    assert("--prune"@.len() == 7);
    assert(args.len() == if dry_run { 7int } else { 6int });
    assert forall|i: int| 0 <= i < args.len() implies args[i] != "--tag"@ by {
        assert(args[0] == "forget"@);
        assert(args[1] == "-r"@);
        assert(args[2] == joined);
        assert(args[3] == "--keep-within"@);
        assert(args[4] == keep_within);
        if dry_run {
            assert(args[5] == "--dry-run"@);
            assert(args[6] == "--prune"@);
        } else {
            assert(args[5] == "--prune"@);
        }
    }
}

/// Tag-filter law, non-empty case: a non-empty tag filter puts exactly the
/// pair `--tag <tag>` into the argument list, as two discrete adjacent
/// tokens right after the five fixed leading tokens.
pub proof fn lemma_tag_flag_two_tokens(
    root: Seq<char>,
    repo: Seq<char>,
    keep_within: Seq<char>,
    tag: Seq<char>,
    dry_run: bool,
)
    requires
        tag.len() > 0,
    ensures
        forget_args(root, repo, keep_within, tag, dry_run)[5] == "--tag"@,
        forget_args(root, repo, keep_within, tag, dry_run)[6] == tag,
        forget_args(root, repo, keep_within, tag, dry_run).contains("--tag"@),
{
    let args = forget_args(root, repo, keep_within, tag, dry_run);
    assert(args[5] == "--tag"@);
}

/// Dry-run law, requested case: when the request asks for a dry run the
/// argument list includes the `--dry-run` flag.
pub proof fn lemma_dry_run_includes_flag(
    root: Seq<char>,
    repo: Seq<char>,
    keep_within: Seq<char>,
    tag: Seq<char>,
)
    ensures
        forget_args(root, repo, keep_within, tag, true).contains("--dry-run"@),
{
    let args = forget_args(root, repo, keep_within, tag, true);
    if tag.len() > 0 {
        assert(args[7] == "--dry-run"@);
    } else {
        assert(args[5] == "--dry-run"@);
    }
}

/// Dry-run law, absent case: without a dry-run request the `--dry-run` flag
/// is absent from the argument list. The retention window or tag filter
/// spelling out the literal text `--dry-run` is the one pair of inputs this
/// cannot hold for, and the law leaves them out.
pub proof fn lemma_no_dry_run_omits_flag(
    root: Seq<char>,
    repo: Seq<char>,
    keep_within: Seq<char>,
    tag: Seq<char>,
)
    requires
        keep_within != "--dry-run"@,
        tag != "--dry-run"@,
    ensures
        !forget_args(root, repo, keep_within, tag, false).contains("--dry-run"@),
{
    reveal_strlit("--dry-run");
    reveal_strlit("forget");
    reveal_strlit("-r");
    reveal_strlit("--keep-within");
    reveal_strlit("--tag");
    reveal_strlit("--prune");
    lemma_joined_path_has_slash(root, repo);
    let args = forget_args(root, repo, keep_within, tag, false);
    let joined = joined_repo_path(root, repo);
    if tag.len() > 0 {
        assert(args =~= seq![
            "forget"@,
            "-r"@,
            joined,
            "--keep-within"@,
            keep_within,
            "--tag"@,
            tag,
            "--prune"@,
        ]);
    } else {
        assert(args =~= seq!["forget"@, "-r"@, joined, "--keep-within"@, keep_within, "--prune"@]);
    }
    assert(joined != "--dry-run"@) by {
        if joined == "--dry-run"@ {
            let l = root.len() as int;
            assert(0 <= l < 9);
            assert("--dry-run"@[l] == '/');
            assert("--dry-run"@[0] == '-');
            assert("--dry-run"@[1] == '-');
            assert("--dry-run"@[2] == 'd');
            assert("--dry-run"@[3] == 'r');
            assert("--dry-run"@[4] == 'y');
            assert("--dry-run"@[5] == '-');
            assert("--dry-run"@[6] == 'r');
            assert("--dry-run"@[7] == 'u');
            assert("--dry-run"@[8] == 'n');
        }
    }
    assert("--dry-run"@.len() == 9);
    assert("forget"@.len() == 6);
    assert("-r"@.len() == 2);
    assert("--keep-within"@.len() == 13);
    assert("--tag"@.len() == 5);
    assert("--prune"@.len() == 7);
    assert(args.len() == if tag.len() > 0 { 8int } else { 6int });
    assert forall|i: int| 0 <= i < args.len() implies args[i] != "--dry-run"@ by {
        assert(args[0] == "forget"@);
        assert(args[1] == "-r"@);
        assert(args[2] == joined);
        assert(args[3] == "--keep-within"@);
        assert(args[4] == keep_within);
        if tag.len() > 0 {
            assert(args[5] == "--tag"@);
            assert(args[6] == tag);
            assert(args[7] == "--prune"@);
        } else {
            assert(args[5] == "--prune"@);
        }
    }
}

} // verus!
