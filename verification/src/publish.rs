//! Publishing a snapshot: the commit, the remote, and the push.
//!
//! The decisions are taken here; running `git` and reading its answers is
//! left to the caller, who hands each answer back as an event.

use vstd::prelude::*;
use crate::config::SiteConfig;
use crate::snapshot::Snapshot;
use vstd::slice::slice_to_vec;
use crate::slug::{is_white_space, trim_chars, trimmed, white_space};
use crate::text::{
    arg_views,
    chars_of, drop_empty, has_prefix, has_suffix, nonempty_pieces, same_text, slice_chars, split,
    split_chars, string_of, views,
};
use vstd::string::*;

verus! {

/// A remote as `git` has it configured.
#[derive(Debug, Clone, PartialEq, Eq)]
pub struct Remote {
    /// Name of the remote.
    pub name: String,
    /// URL it fetches from.
    pub url: String,
}

impl View for Remote {
    type V = (Seq<char>, Seq<char>);

    open spec fn view(&self) -> (Seq<char>, Seq<char>) {
        (self.name@, self.url@)
    }
}

/// The remotes in `remotes`, as pairs of name and URL.
pub open spec fn remote_views(remotes: Seq<Remote>) -> Seq<(Seq<char>, Seq<char>)> {
    remotes.map_values(|r: Remote| r@)
}

/// The remote that the configuration asks for.
#[derive(Debug, Clone, PartialEq, Eq)]
pub struct DesiredRemote {
    /// URL of the repository.
    pub url: String,
    /// Branch to push to.
    pub branch: String,
    /// File that holds the access token, where one is configured.
    pub token_path: Option<String>,
    /// Whether the remote branch and an unrelated remote may be overwritten.
    pub force: bool,
}

/// Why publishing failed.
#[derive(Debug, Clone, Copy, PartialEq, Eq, Structural)]
pub enum PublishError {
    /// The configured provider is not supported.
    UnsupportedProvider,
    /// The commit message is empty.
    EmptyMessage,
    /// The remote URL does not start with `https://`.
    NotHttps,
    /// `origin` points elsewhere than the configuration says, and force is
    /// off: enable force or fix the remote by hand.
    Drift,
    /// Setting the remote failed.
    RemoteFailed,
    /// The push was rejected.
    PushFailed,
}

/// A line of text with one trailing carriage return removed.
pub open spec fn without_carriage_return(line: Seq<char>) -> Seq<char> {
    if line.len() > 0 && line.last() == '\r' {
        line.drop_last()
    } else {
        line
    }
}

/// `s` with every white-space character replaced by a space.
pub open spec fn spaced(s: Seq<char>) -> Seq<char> {
    s.map_values(|c: char| if is_white_space(c) { ' ' } else { c })
}

/// The fields of a line: its maximal runs of characters that are not white
/// space.
pub open spec fn fields(line: Seq<char>) -> Seq<Seq<char>> {
    nonempty_pieces(split(spaced(line), ' '))
}

/// Tells whether a line of the remote listing names a remote: it ends in
/// `(fetch)` and has at least two fields.
pub open spec fn names_remote(line: Seq<char>) -> bool {
    "(fetch)"@.is_suffix_of(without_carriage_return(line)) && fields(
        without_carriage_return(line),
    ).len() >= 2
}

/// The remote a line of the listing names: its first two fields.
pub open spec fn remote_of(line: Seq<char>) -> (Seq<char>, Seq<char>) {
    (fields(without_carriage_return(line))[0], fields(without_carriage_return(line))[1])
}

/// The remotes that the first `n` lines name.
pub open spec fn remotes_in(lines: Seq<Seq<char>>, n: int) -> Seq<(Seq<char>, Seq<char>)>
    decreases n,
{
    if n <= 0 {
        Seq::<(Seq<char>, Seq<char>)>::empty()
    } else if names_remote(lines[n - 1]) {
        remotes_in(lines, n - 1).push(remote_of(lines[n - 1]))
    } else {
        remotes_in(lines, n - 1)
    }
}

/// The remotes that a listing names, one for each of its lines that ends in
/// `(fetch)`.
pub open spec fn listed_remotes(listing: Seq<char>) -> Seq<(Seq<char>, Seq<char>)> {
    remotes_in(split(listing, '\n'), split(listing, '\n').len() as int)
}

/// The fields of a line.
pub fn fields_of(line: &Vec<char>) -> (out: Vec<Vec<char>>)
    ensures
        views(out@) == fields(line@),
{
    let mut spaced_line: Vec<char> = Vec::new();
    let mut i: usize = 0;
    while i < line.len()
        invariant
            i <= line.len(),
            spaced_line@ == spaced(line@).subrange(0, i as int),
        decreases line.len() - i,
    {
        let c = line[i];
        if white_space(c) {
            spaced_line.push(' ');
        } else {
            spaced_line.push(c);
        }
        i = i + 1;
        assert(spaced_line@ =~= spaced(line@).subrange(0, i as int));
    }
    assert(spaced_line@ =~= spaced(line@));
    drop_empty(split_chars(&spaced_line, ' '))
}

/// Reads the remotes from the output of `git remote -v`.
pub fn parse_remotes(listing: &str) -> (remotes: Vec<Remote>)
    ensures
        remote_views(remotes@) == listed_remotes(listing@),
{
    let text = chars_of(listing);
    let lines = split_chars(&text, '\n');
    let ghost all = views(lines@);
    let marker = chars_of("(fetch)");
    let mut remotes: Vec<Remote> = Vec::new();
    let mut i: usize = 0;
    assert(remote_views(remotes@) =~= remotes_in(all, 0));
    while i < lines.len()
        invariant
            i <= lines.len(),
            all == views(lines@),
            marker@ == "(fetch)"@,
            remote_views(remotes@) == remotes_in(all, i as int),
        decreases lines.len() - i,
    {
        let raw = &lines[i];
        assert(all[i as int] == raw@);
        let line = if raw.len() > 0 && raw[raw.len() - 1] == '\r' {
            slice_chars(raw, 0, raw.len() - 1)
        } else {
            slice_chars(raw, 0, raw.len())
        };
        assert(line@ =~= without_carriage_return(raw@));
        if has_suffix(&line, &marker) {
            let parts = fields_of(&line);
            if parts.len() >= 2 {
                let ghost before = remote_views(remotes@);
                let remote = Remote { name: string_of(&parts[0]), url: string_of(&parts[1]) };
                assert(views(parts@)[0] == parts@[0]@);
                assert(views(parts@)[1] == parts@[1]@);
                remotes.push(remote);
                assert(remote_views(remotes@) =~= before.push(remote_of(raw@)));
            }
        }
        i = i + 1;
    }
    remotes
}

/// Tells whether a remote named `origin` is listed.
pub open spec fn has_origin(remotes: Seq<(Seq<char>, Seq<char>)>) -> bool {
    exists|i: int| 0 <= i < remotes.len() && (#[trigger] remotes[i]).0 == "origin"@
}

/// Tells whether a remote named `origin` is listed with the given URL.
pub open spec fn has_origin_at(remotes: Seq<(Seq<char>, Seq<char>)>, url: Seq<char>) -> bool {
    exists|i: int|
        0 <= i < remotes.len() && (#[trigger] remotes[i]).0 == "origin"@ && remotes[i].1 == url
}

/// Tells whether a remote named `origin` is configured.
pub fn origin_exists(remotes: &Vec<Remote>) -> (b: bool)
    ensures
        b == has_origin(remote_views(remotes@)),
{
    let ghost all = remote_views(remotes@);
    let mut i: usize = 0;
    while i < remotes.len()
        invariant
            i <= remotes.len(),
            all == remote_views(remotes@),
            forall|k: int| 0 <= k < i ==> (#[trigger] all[k]).0 != "origin"@,
        decreases remotes.len() - i,
    {
        if same_text(remotes[i].name.as_str(), "origin") {
            assert(all[i as int].0 == "origin"@);
            return true;
        }
        i = i + 1;
    }
    false
}

/// Tells whether `origin` is configured with the expected URL.
pub fn origin_matches(remotes: &Vec<Remote>, expected_url: &str) -> (b: bool)
    ensures
        b == has_origin_at(remote_views(remotes@), expected_url@),
{
    let ghost all = remote_views(remotes@);
    let mut i: usize = 0;
    while i < remotes.len()
        invariant
            i <= remotes.len(),
            all == remote_views(remotes@),
            forall|k: int|
                0 <= k < i ==> !((#[trigger] all[k]).0 == "origin"@ && all[k].1 == expected_url@),
        decreases remotes.len() - i,
    {
        if same_text(remotes[i].name.as_str(), "origin") && same_text(
            remotes[i].url.as_str(),
            expected_url,
        ) {
            assert(all[i as int].0 == "origin"@ && all[i as int].1 == expected_url@);
            return true;
        }
        i = i + 1;
    }
    false
}

/// The URL a push goes to: the configured one, with the token, where there
/// is one, between the scheme and the host.
pub open spec fn authenticated(url: Seq<char>, token: Seq<char>) -> Seq<char> {
    let rest = url.subrange("https://"@.len() as int, url.len() as int);
    if trimmed(token).len() == 0 {
        "https://"@ + rest
    } else {
        "https://"@ + trimmed(token) + seq!['@'] + rest
    }
}

/// Builds the URL a push goes to from the configured URL and the text of
/// the token file; an absent or unreadable file counts as empty.
///
/// Fails where the configured URL does not start with `https://`.
pub fn build_authenticated_url(url: &str, token: &str) -> (r: Result<String, PublishError>)
    ensures
        "https://"@.is_prefix_of(url@) ==> r is Ok && r->Ok_0@ == authenticated(url@, token@),
        !"https://"@.is_prefix_of(url@) ==> r == Err::<String, PublishError>(
            PublishError::NotHttps,
        ),
{
    let scheme = chars_of("https://");
    let full = chars_of(url);
    if !has_prefix(&full, &scheme) {
        return Err(PublishError::NotHttps);
    }
    let rest = slice_chars(&full, scheme.len(), full.len());
    let secret = trim_chars(&chars_of(token));
    let mut out = "https://".to_owned();
    if secret.len() > 0 {
        out.append(string_of(&secret).as_str());
        out.append("@");
        proof {
            reveal_strlit("@");
            assert("@"@ =~= seq!['@']);
        }
    }
    out.append(string_of(&rest).as_str());
    Ok(out)
}

/// A commit to be written: the tree of a snapshot, a message, and at most
/// one parent.
#[derive(Debug, Clone, PartialEq, Eq)]
pub struct Commit {
    /// Id of the tree of the snapshot.
    pub tree_id: Vec<u8>,
    /// The commit message.
    pub message: String,
    /// Id of the parent commit; none on a branch without commits.
    pub parent: Option<Vec<u8>>,
}

/// Builds the commit of a snapshot on top of the current tip of the target
/// branch; a branch without commits has no tip.
///
/// Fails where the message holds nothing but white space.
pub fn plan_commit(snapshot: &Snapshot, message: &str, tip: Option<Vec<u8>>) -> (r: Result<
    Commit,
    PublishError,
>)
    ensures
        trimmed(message@).len() == 0 ==> r == Err::<Commit, PublishError>(
            PublishError::EmptyMessage,
        ),
        trimmed(message@).len() > 0 ==> {
            &&& r matches Ok(commit)
            &&& commit.tree_id@ == snapshot.tree_id@
            &&& commit.message@ == message@
            &&& commit.parent == tip
        },
{
    if trim_chars(&chars_of(message)).len() == 0 {
        return Err(PublishError::EmptyMessage);
    }
    Ok(
        Commit {
            tree_id: slice_to_vec(snapshot.tree_id.as_slice()),
            message: message.to_owned(),
            parent: tip,
        },
    )
}

/// The remote that the configuration asks to publish to.
///
/// Fails where the configured provider is not `github`.
pub fn desired_remote(config: &SiteConfig) -> (r: Result<DesiredRemote, PublishError>)
    ensures
        config.deploy.provider@ != "github"@ ==> r == Err::<DesiredRemote, PublishError>(
            PublishError::UnsupportedProvider,
        ),
        config.deploy.provider@ == "github"@ ==> {
            &&& r matches Ok(remote)
            &&& remote.url@ == config.deploy.github_provider.url@
            &&& remote.branch@ == config.deploy.github_provider.branch@
            &&& remote.token_path == config.deploy.github_provider.token_path
            &&& remote.force == config.deploy.force
        },
{
    if !same_text(config.deploy.provider.as_str(), "github") {
        return Err(PublishError::UnsupportedProvider);
    }
    Ok(
        DesiredRemote {
            url: config.deploy.github_provider.url.clone(),
            branch: config.deploy.github_provider.branch.clone(),
            token_path: config.deploy.github_provider.token_path.clone(),
            force: config.deploy.force,
        },
    )
}

/// Where a push stands: what the publisher waits for, or how it ended.
#[derive(Debug, Clone, Copy, PartialEq, Eq, Structural)]
pub enum PushState {
    /// Waiting for the list of remotes, before anything is changed.
    ReadingRemotes,
    /// Waiting for `origin` to be added or set.
    SettingRemote,
    /// Waiting for the push.
    Pushing,
    /// Waiting for the list of remotes after the push.
    Verifying,
    /// The push went through.
    Done,
    /// The push failed.
    Failed(PublishError),
}

/// What the caller reports back.
#[derive(Debug, Clone, PartialEq, Eq)]
pub enum PushEvent {
    /// The remotes that are configured now.
    Remotes(Vec<Remote>),
    /// The `git` command succeeded.
    GitOk,
    /// The `git` command failed.
    GitFailed,
}

/// What the caller is to do next.
#[derive(Debug, Clone, PartialEq, Eq)]
pub enum PushAction {
    /// List the configured remotes and report them.
    ListRemotes,
    /// Run `git` with these arguments and report whether it succeeded.
    Git(Vec<String>),
    /// Nothing more: the state says how the push ended.
    Stop,
}

/// The mathematical value of an event.
pub enum PushEventModel {
    Remotes(Seq<(Seq<char>, Seq<char>)>),
    GitOk,
    GitFailed,
}

/// The mathematical value of an action.
pub enum PushActionModel {
    ListRemotes,
    Git(Seq<Seq<char>>),
    Stop,
}

impl View for PushEvent {
    type V = PushEventModel;

    open spec fn view(&self) -> PushEventModel {
        match self {
            PushEvent::Remotes(remotes) => PushEventModel::Remotes(remote_views(remotes@)),
            PushEvent::GitOk => PushEventModel::GitOk,
            PushEvent::GitFailed => PushEventModel::GitFailed,
        }
    }
}

impl View for PushAction {
    type V = PushActionModel;

    open spec fn view(&self) -> PushActionModel {
        match self {
            PushAction::ListRemotes => PushActionModel::ListRemotes,
            PushAction::Git(args) => PushActionModel::Git(arg_views(args@)),
            PushAction::Stop => PushActionModel::Stop,
        }
    }
}

/// `origin` has drifted when it is configured, but not with the URL the
/// push is to use.
pub open spec fn drifted(remotes: Seq<(Seq<char>, Seq<char>)>, url: Seq<char>) -> bool {
    has_origin(remotes) && !has_origin_at(remotes, url)
}

/// The arguments that point `origin` at the URL: `set-url` where it is
/// configured, `add` where it is not.
pub open spec fn remote_args(remotes: Seq<(Seq<char>, Seq<char>)>, url: Seq<char>) -> Seq<
    Seq<char>,
> {
    if has_origin(remotes) {
        seq!["remote"@, "set-url"@, "origin"@, url]
    } else {
        seq!["remote"@, "add"@, "origin"@, url]
    }
}

/// The arguments of the push, with `-f` last where force is on.
pub open spec fn push_args(branch: Seq<char>, force: bool) -> Seq<Seq<char>> {
    if force {
        seq!["push"@, "--set-upstream"@, "origin"@, branch, "-f"@]
    } else {
        seq!["push"@, "--set-upstream"@, "origin"@, branch]
    }
}

/// The state and the action that follow an event.
///
/// Before anything is changed, a drifted `origin` ends the push unless force
/// is on. A failed command ends it. After the push the remotes are read
/// again, and `origin` must be at the URL unless force is on. An event that
/// the state does not wait for ends the push as failed.
pub open spec fn advanced(
    state: PushState,
    event: PushEventModel,
    url: Seq<char>,
    branch: Seq<char>,
    force: bool,
) -> (PushState, PushActionModel) {
    match (state, event) {
        (PushState::ReadingRemotes, PushEventModel::Remotes(remotes)) => {
            if drifted(remotes, url) && !force {
                (PushState::Failed(PublishError::Drift), PushActionModel::Stop)
            } else {
                (PushState::SettingRemote, PushActionModel::Git(remote_args(remotes, url)))
            }
        },
        (PushState::SettingRemote, PushEventModel::GitOk) => (
            PushState::Pushing,
            PushActionModel::Git(push_args(branch, force)),
        ),
        (PushState::SettingRemote, _) => (
            PushState::Failed(PublishError::RemoteFailed),
            PushActionModel::Stop,
        ),
        (PushState::Pushing, PushEventModel::GitOk) => (
            PushState::Verifying,
            PushActionModel::ListRemotes,
        ),
        (PushState::Pushing, _) => (
            PushState::Failed(PublishError::PushFailed),
            PushActionModel::Stop,
        ),
        (PushState::Verifying, PushEventModel::Remotes(remotes)) => {
            if !force && !has_origin_at(remotes, url) {
                (PushState::Failed(PublishError::Drift), PushActionModel::Stop)
            } else {
                (PushState::Done, PushActionModel::Stop)
            }
        },
        (PushState::Done, _) => (PushState::Done, PushActionModel::Stop),
        (PushState::Failed(e), _) => (PushState::Failed(e), PushActionModel::Stop),
        (PushState::ReadingRemotes, _) => (
            PushState::Failed(PublishError::RemoteFailed),
            PushActionModel::Stop,
        ),
        (PushState::Verifying, _) => (
            PushState::Failed(PublishError::PushFailed),
            PushActionModel::Stop,
        ),
    }
}

/// The state a push starts in, and the first thing to do.
pub fn begin_push() -> (r: (PushState, PushAction))
    ensures
        r.0 == PushState::ReadingRemotes,
        r.1@ == PushActionModel::ListRemotes,
{
    (PushState::ReadingRemotes, PushAction::ListRemotes)
}

/// The arguments that point `origin` at the URL.
fn remote_command(remotes: &Vec<Remote>, url: &str) -> (args: Vec<String>)
    ensures
        arg_views(args@) == remote_args(remote_views(remotes@), url@),
{
    let mut args: Vec<String> = Vec::new();
    args.push("remote".to_owned());
    if origin_exists(remotes) {
        args.push("set-url".to_owned());
    } else {
        args.push("add".to_owned());
    }
    args.push("origin".to_owned());
    args.push(url.to_owned());
    assert(arg_views(args@) =~= remote_args(remote_views(remotes@), url@));
    args
}

/// The arguments of the push.
fn push_command(branch: &str, force: bool) -> (args: Vec<String>)
    ensures
        arg_views(args@) == push_args(branch@, force),
{
    let mut args: Vec<String> = Vec::new();
    args.push("push".to_owned());
    args.push("--set-upstream".to_owned());
    args.push("origin".to_owned());
    args.push(branch.to_owned());
    if force {
        args.push("-f".to_owned());
    }
    assert(arg_views(args@) =~= push_args(branch@, force));
    args
}

/// Takes what the caller reports and says what to do next.
///
/// `url` is the URL the push is to use: that of
/// [`build_authenticated_url`].
pub fn advance(state: PushState, event: &PushEvent, url: &str, branch: &str, force: bool) -> (r: (
    PushState,
    PushAction,
))
    ensures
        (r.0, r.1@) == advanced(state, event@, url@, branch@, force),
{
    match state {
        PushState::ReadingRemotes => match event {
            PushEvent::Remotes(remotes) => {
                if origin_exists(remotes) && !origin_matches(remotes, url) && !force {
                    (PushState::Failed(PublishError::Drift), PushAction::Stop)
                } else {
                    (PushState::SettingRemote, PushAction::Git(remote_command(remotes, url)))
                }
            },
            _ => (PushState::Failed(PublishError::RemoteFailed), PushAction::Stop),
        },
        PushState::SettingRemote => match event {
            PushEvent::GitOk => (PushState::Pushing, PushAction::Git(push_command(branch, force))),
            _ => (PushState::Failed(PublishError::RemoteFailed), PushAction::Stop),
        },
        PushState::Pushing => match event {
            PushEvent::GitOk => (PushState::Verifying, PushAction::ListRemotes),
            _ => (PushState::Failed(PublishError::PushFailed), PushAction::Stop),
        },
        PushState::Verifying => match event {
            PushEvent::Remotes(remotes) => {
                if !force && !origin_matches(remotes, url) {
                    (PushState::Failed(PublishError::Drift), PushAction::Stop)
                } else {
                    (PushState::Done, PushAction::Stop)
                }
            },
            _ => (PushState::Failed(PublishError::PushFailed), PushAction::Stop),
        },
        PushState::Done => (PushState::Done, PushAction::Stop),
        PushState::Failed(e) => (PushState::Failed(e), PushAction::Stop),
    }
}

/// With force off, a push to a repository whose `origin` points elsewhere
/// fails with a drift error before any command is run: the remote is left
/// as it is.
pub proof fn lemma_drift_fails_before_any_change(
    remotes: Seq<(Seq<char>, Seq<char>)>,
    url: Seq<char>,
    branch: Seq<char>,
)
    requires
        has_origin(remotes),
        !has_origin_at(remotes, url),
    ensures
        advanced(PushState::ReadingRemotes, PushEventModel::Remotes(remotes), url, branch, false)
            == (PushState::Failed(PublishError::Drift), PushActionModel::Stop),
{
}

/// A rejected push is surfaced and never retried: the push ends as failed,
/// and no event brings it back.
pub proof fn lemma_failed_push_is_final(
    event: PushEventModel,
    later: PushEventModel,
    url: Seq<char>,
    branch: Seq<char>,
    force: bool,
)
    requires
        !(event is GitOk),
    ensures
        advanced(PushState::Pushing, event, url, branch, force) == (
            PushState::Failed(PublishError::PushFailed),
            PushActionModel::Stop,
        ),
        advanced(PushState::Failed(PublishError::PushFailed), later, url, branch, force) == (
            PushState::Failed(PublishError::PushFailed),
            PushActionModel::Stop,
        ),
{
}

} // verus!
