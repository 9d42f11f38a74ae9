use tola::config::SiteConfig;
use tola::publish::{
    advance, begin_push, build_authenticated_url, desired_remote, fields_of, origin_exists,
    origin_matches, parse_remotes, plan_commit, PublishError, PushAction, PushEvent, PushState,
    Remote,
};
use tola::slug::trim_chars;
use tola::snapshot::build_snapshot;

fn remote(name: &str, url: &str) -> Remote {
    Remote { name: name.to_string(), url: url.to_string() }
}

fn args(list: &[&str]) -> PushAction {
    PushAction::Git(list.iter().map(|a| a.to_string()).collect())
}

#[test]
fn remotes_are_read_from_the_fetch_lines() {
    let listing = "origin\thttps://a.example/x.git (fetch)\norigin\thttps://a.example/x.git (push)\nup  https://b.example/y (fetch)\r\n\n(fetch)\n";
    assert_eq!(
        parse_remotes(listing),
        vec![remote("origin", "https://a.example/x.git"), remote("up", "https://b.example/y")]
    );
    assert_eq!(parse_remotes(""), vec![]);
}

#[test]
fn fields_are_runs_without_white_space() {
    let line: Vec<char> = "  a\tb  c ".chars().collect();
    let fields: Vec<String> = fields_of(&line).iter().map(|f| f.iter().collect()).collect();
    assert_eq!(fields, vec!["a", "b", "c"]);
    let trimmed: String = trim_chars(&line).iter().collect();
    assert_eq!(trimmed, "a\tb  c");
}

#[test]
fn origin_is_found_by_name_and_url() {
    let remotes = vec![remote("up", "https://x"), remote("origin", "https://y")];
    assert!(origin_exists(&remotes));
    assert!(origin_matches(&remotes, "https://y"));
    assert!(!origin_matches(&remotes, "https://x"));
    assert!(!origin_exists(&vec![remote("up", "https://x")]));
    assert!(!origin_exists(&vec![]));
}

#[test]
fn authenticated_url_carries_the_trimmed_token() {
    assert_eq!(
        build_authenticated_url("https://github.com/alice/site", " tok123\n"),
        Ok("https://tok123@github.com/alice/site".to_string())
    );
    assert_eq!(
        build_authenticated_url("https://github.com/alice/site", "  \n"),
        Ok("https://github.com/alice/site".to_string())
    );
    assert_eq!(
        build_authenticated_url("https://github.com/alice/site", ""),
        Ok("https://github.com/alice/site".to_string())
    );
    assert_eq!(
        build_authenticated_url("git@github.com:alice/site", "tok"),
        Err(PublishError::NotHttps)
    );
    assert_eq!(build_authenticated_url("http://github.com/a", ""), Err(PublishError::NotHttps));
}

#[test]
fn commit_takes_the_tip_as_parent() {
    let snapshot = build_snapshot(&vec![], b"").unwrap();
    let unborn = plan_commit(&snapshot, "deploy it", None).unwrap();
    assert_eq!(unborn.tree_id, snapshot.tree_id);
    assert_eq!(unborn.message, "deploy it");
    assert_eq!(unborn.parent, None);
    let child = plan_commit(&snapshot, "deploy it", Some(vec![7; 20])).unwrap();
    assert_eq!(child.parent, Some(vec![7; 20]));
    assert_eq!(plan_commit(&snapshot, " \n\t", None), Err(PublishError::EmptyMessage));
    assert_eq!(plan_commit(&snapshot, "", None), Err(PublishError::EmptyMessage));
}

#[test]
fn only_github_is_supported() {
    let mut config = SiteConfig::default();
    config.deploy.force = true;
    let desired = desired_remote(&config).unwrap();
    assert_eq!(desired.url, "https://github.com/alice/alice.github.io");
    assert_eq!(desired.branch, "main");
    assert_eq!(desired.token_path, None);
    assert!(desired.force);
    config.deploy.provider = "vercel".to_string();
    assert_eq!(desired_remote(&config), Err(PublishError::UnsupportedProvider));
}

#[test]
fn drifted_origin_fails_without_force_and_is_not_repointed() {
    let (state, action) = begin_push();
    assert_eq!(state, PushState::ReadingRemotes);
    assert_eq!(action, PushAction::ListRemotes);
    let found = PushEvent::Remotes(vec![remote("origin", "https://y.example/repo")]);
    let (state, action) = advance(state, &found, "https://x.example/repo", "main", false);
    assert_eq!(state, PushState::Failed(PublishError::Drift));
    assert_eq!(action, PushAction::Stop);
}

#[test]
fn drifted_origin_is_repointed_with_force() {
    let found = PushEvent::Remotes(vec![remote("origin", "https://y.example/repo")]);
    let (state, action) =
        advance(PushState::ReadingRemotes, &found, "https://x.example/repo", "main", true);
    assert_eq!(state, PushState::SettingRemote);
    assert_eq!(action, args(&["remote", "set-url", "origin", "https://x.example/repo"]));
    let (state, action) = advance(state, &PushEvent::GitOk, "https://x.example/repo", "main", true);
    assert_eq!(state, PushState::Pushing);
    assert_eq!(action, args(&["push", "--set-upstream", "origin", "main", "-f"]));
}

#[test]
fn push_to_a_new_repository_goes_through() {
    let url = "https://x.example/repo";
    let (state, action) =
        advance(PushState::ReadingRemotes, &PushEvent::Remotes(vec![]), url, "main", false);
    assert_eq!(state, PushState::SettingRemote);
    assert_eq!(action, args(&["remote", "add", "origin", url]));
    let (state, action) = advance(state, &PushEvent::GitOk, url, "main", false);
    assert_eq!(state, PushState::Pushing);
    assert_eq!(action, args(&["push", "--set-upstream", "origin", "main"]));
    let (state, action) = advance(state, &PushEvent::GitOk, url, "main", false);
    assert_eq!(state, PushState::Verifying);
    assert_eq!(action, PushAction::ListRemotes);
    let after = PushEvent::Remotes(vec![remote("origin", url)]);
    let (state, action) = advance(state, &after, url, "main", false);
    assert_eq!(state, PushState::Done);
    assert_eq!(action, PushAction::Stop);
}

#[test]
fn rejected_push_is_surfaced_and_not_retried() {
    let url = "https://x.example/repo";
    let (state, action) = advance(PushState::Pushing, &PushEvent::GitFailed, url, "main", false);
    assert_eq!(state, PushState::Failed(PublishError::PushFailed));
    assert_eq!(action, PushAction::Stop);
    let (state, action) = advance(state, &PushEvent::GitOk, url, "main", false);
    assert_eq!(state, PushState::Failed(PublishError::PushFailed));
    assert_eq!(action, PushAction::Stop);
    let (state, _) = advance(PushState::SettingRemote, &PushEvent::GitFailed, url, "main", false);
    assert_eq!(state, PushState::Failed(PublishError::RemoteFailed));
}

#[test]
fn drift_after_the_push_fails_without_force() {
    let url = "https://x.example/repo";
    let after = PushEvent::Remotes(vec![remote("origin", "https://y.example/repo")]);
    let (state, _) = advance(PushState::Verifying, &after, url, "main", false);
    assert_eq!(state, PushState::Failed(PublishError::Drift));
    let (state, _) = advance(PushState::Verifying, &after, url, "main", true);
    assert_eq!(state, PushState::Done);
}
