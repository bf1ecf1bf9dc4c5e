use distpub::publish::{git_command_args, PublishAction, Publisher};

fn args(action: PublishAction) -> Vec<String> {
    match action {
        PublishAction::RunGit(a) => a,
        _ => panic!("expected a git command"),
    }
}

#[test]
fn git_commands_in_publish_order() {
    let remote = "https://example.com/group/site.git";
    let branch = "gh-pages";
    assert_eq!(git_command_args(0, remote, branch), vec!["init"]);
    assert_eq!(
        git_command_args(1, remote, branch),
        vec!["remote", "add", "origin", remote]
    );
    assert_eq!(git_command_args(2, remote, branch), vec!["add", "."]);
    assert_eq!(
        git_command_args(3, remote, branch),
        vec!["commit", "-am", "Update gh-pages"]
    );
    assert_eq!(git_command_args(4, remote, branch), vec!["branch", "gh-pages"]);
    assert_eq!(
        git_command_args(5, remote, branch),
        vec!["push", "-uf", "origin", "gh-pages"]
    );
}

#[test]
fn full_success_runs_all_steps_then_cleanup() {
    let remote = "https://example.com/site.git";
    let branch = "gh-pages";
    let mut p = Publisher::new();
    for expected in [
        vec!["init".to_string()],
        vec!["remote".to_string(), "add".to_string(), "origin".to_string(), remote.to_string()],
        vec!["add".to_string(), ".".to_string()],
        vec!["commit".to_string(), "-am".to_string(), "Update gh-pages".to_string()],
        vec!["branch".to_string(), branch.to_string()],
        vec!["push".to_string(), "-uf".to_string(), "origin".to_string(), branch.to_string()],
    ] {
        assert_eq!(args(p.next_action(remote, branch)), expected);
        p.record(true);
    }
    assert!(matches!(p.next_action(remote, branch), PublishAction::RemoveMetadata));
    p.record(true);
    assert!(matches!(p.next_action(remote, branch), PublishAction::Done));
}

#[test]
fn staging_failure_stops_everything_after() {
    let remote = "https://example.com/site.git";
    let branch = "gh-pages";
    let mut p = Publisher::new();

    // init and remote add succeed
    assert_eq!(args(p.next_action(remote, branch)), vec!["init"]);
    p.record(true);
    assert_eq!(
        args(p.next_action(remote, branch)),
        vec!["remote", "add", "origin", remote]
    );
    p.record(true);

    // add . fails: commit, branch, push and cleanup never run
    assert_eq!(args(p.next_action(remote, branch)), vec!["add", "."]);
    p.record(false);
    assert!(matches!(p.next_action(remote, branch), PublishAction::Aborted));

    // even further recorded outcomes change nothing
    p.record(true);
    assert!(matches!(p.next_action(remote, branch), PublishAction::Aborted));
}

#[test]
fn cleanup_failure_is_surfaced() {
    let remote = "r";
    let branch = "b";
    let mut p = Publisher::new();
    for _ in 0..6 {
        assert!(matches!(p.next_action(remote, branch), PublishAction::RunGit(_)));
        p.record(true);
    }
    assert!(matches!(p.next_action(remote, branch), PublishAction::RemoveMetadata));
    p.record(false);
    assert!(matches!(p.next_action(remote, branch), PublishAction::Aborted));
}
