use rfs_server::Decision;
use rfs_server::ForgetRequest;
use rfs_server::RESTIC_REPOS_PATH;
use rfs_server::authorize;
use rfs_server::build_forget_command;
use rfs_server::process_request;
use rfs_server::repo_name_is_confined;
use rfs_server::root_banner;

const SECRET: &str = "correct-key";

fn request(repo: &str, tag: &str, dry_run: bool, api_key: &str) -> ForgetRequest {
    ForgetRequest {
        repo: repo.to_string(),
        passwd: "p".to_string(),
        keep_within: "7d".to_string(),
        tag: tag.to_string(),
        dry_run,
        api_key: api_key.to_string(),
    }
}

#[test]
fn banner_is_fixed() {
    assert_eq!(root_banner(), "ResticSecureForget");
}

#[test]
fn end_to_end_plain_request() {
    let d = process_request(Some(request("alpha", "", false, SECRET)), SECRET, RESTIC_REPOS_PATH);
    assert_eq!(d.status_code(), 200);
    match d {
        Decision::Dispatch(c) => {
            assert_eq!(c.program, "restic");
            assert_eq!(
                c.args,
                vec!["forget", "-r", "/rfs_repos/alpha", "--keep-within", "7d", "--prune"]
            );
            assert_eq!(c.env_key, "RESTIC_PASSWORD");
            assert_eq!(c.env_value, "p");
        }
        _ => panic!("expected a dispatch"),
    }
}

#[test]
fn end_to_end_dry_run_tagged() {
    let d = process_request(
        Some(request("alpha", "weekly", true, SECRET)),
        SECRET,
        RESTIC_REPOS_PATH,
    );
    assert_eq!(d.status_code(), 200);
    match d {
        Decision::Dispatch(c) => {
            assert_eq!(
                c.args,
                vec![
                    "forget",
                    "-r",
                    "/rfs_repos/alpha",
                    "--keep-within",
                    "7d",
                    "--tag",
                    "weekly",
                    "--dry-run",
                    "--prune"
                ]
            );
            assert_eq!(c.env_value, "p");
        }
        _ => panic!("expected a dispatch"),
    }
}

#[test]
fn unparsed_body_rejected() {
    let d = process_request(None, SECRET, RESTIC_REPOS_PATH);
    assert_eq!(d.status_code(), 400);
    assert!(matches!(d, Decision::BadRequest));
}

#[test]
fn wrong_key_rejected_before_anything_else() {
    let d = process_request(
        Some(request("../../etc", "", false, "wrong-key")),
        SECRET,
        RESTIC_REPOS_PATH,
    );
    assert_eq!(d.status_code(), 401);
    assert!(matches!(d, Decision::Unauthorized));
}

#[test]
fn empty_key_rejected() {
    let d = process_request(Some(request("alpha", "", false, "")), SECRET, RESTIC_REPOS_PATH);
    assert_eq!(d.status_code(), 401);
    assert!(matches!(d, Decision::Unauthorized));
}

#[test]
fn traversal_repo_rejected() {
    for repo in ["../../etc", "..", "a/../b", "alpha/..", "/etc/passwd", ""] {
        let d = process_request(Some(request(repo, "", false, SECRET)), SECRET, RESTIC_REPOS_PATH);
        assert_eq!(d.status_code(), 400);
        assert!(matches!(d, Decision::InvalidRepo), "repo {:?} must be rejected", repo);
    }
}

#[test]
fn guard_rejects_unconfined_names() {
    for repo in ["..", "../x", "x/..", "a/../b", "/etc", "", "../../etc", "a/./../b"] {
        assert!(!repo_name_is_confined(repo), "repo {:?} must be refused", repo);
    }
}

#[test]
fn guard_accepts_confined_names() {
    for repo in ["alpha", "a/b", "a..b", "..a", "a..", "deep/nested/dir", ".", "a.b"] {
        assert!(repo_name_is_confined(repo), "repo {:?} must be accepted", repo);
    }
}

#[test]
fn empty_tag_omits_tag_flag() {
    let c = build_forget_command(RESTIC_REPOS_PATH, request("alpha", "", false, SECRET));
    assert!(!c.args.iter().any(|a| a == "--tag"));
}

#[test]
fn nonempty_tag_gives_two_discrete_tokens() {
    let c = build_forget_command(RESTIC_REPOS_PATH, request("alpha", "weekly", false, SECRET));
    let hits: Vec<usize> = (0..c.args.len()).filter(|i| c.args[*i] == "--tag").collect();
    assert_eq!(hits, vec![5]);
    assert_eq!(c.args[6], "weekly");
}

#[test]
fn dry_run_flag_present_exactly_when_asked() {
    let with = build_forget_command(RESTIC_REPOS_PATH, request("alpha", "", true, SECRET));
    assert!(with.args.iter().any(|a| a == "--dry-run"));
    let without = build_forget_command(RESTIC_REPOS_PATH, request("alpha", "", false, SECRET));
    assert!(!without.args.iter().any(|a| a == "--dry-run"));
}

#[test]
fn prune_is_always_the_last_token() {
    for (tag, dry_run) in [("", false), ("", true), ("weekly", false), ("weekly", true)] {
        let c = build_forget_command(RESTIC_REPOS_PATH, request("alpha", tag, dry_run, SECRET));
        assert_eq!(c.args.last().map(|s| s.as_str()), Some("--prune"));
    }
}

#[test]
fn credential_travels_only_in_environment() {
    let mut req = request("alpha", "weekly", true, SECRET);
    req.passwd = "very-distinctive-credential".to_string();
    let c = build_forget_command(RESTIC_REPOS_PATH, req);
    assert_eq!(c.env_key, "RESTIC_PASSWORD");
    assert_eq!(c.env_value, "very-distinctive-credential");
    assert!(!c.args.iter().any(|a| a == "very-distinctive-credential"));
}

#[test]
fn authorize_compares_to_the_configured_secret() {
    assert!(authorize(&request("alpha", "", false, SECRET), SECRET));
    assert!(!authorize(&request("alpha", "", false, "other"), SECRET));
}
