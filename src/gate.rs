//! The ownership gate: decides, from what GitHub reports, whether a credential
//! may commit or fetch for a repository. The lookups themselves are made by the
//! caller; each answer is handed to `gate_step`, which says what to ask next or
//! gives the verdict.

use vstd::prelude::*;
use crate::error::{EnvaError, is_invalid_url};
use vstd::string::StringExecFns;
use crate::repo::{parse_github_repo, github_repo_of};

verus! {

/// What the credential may do on the repository.
#[derive(Clone, Copy, PartialEq, Eq, Structural)]
pub struct Permissions {
    pub push: bool,
    pub pull: bool,
}

/// The account that owns the repository, and its type (`User`, `Organization`).
pub struct RepoOwner {
    pub login: String,
    pub kind: String,
}

/// What GitHub reports of a repository for the credential.
pub struct RepoFacts {
    pub permissions: Option<Permissions>,
    pub owner: Option<RepoOwner>,
}

/// How far the authorization has come.
pub enum GateState {
    /// The identity behind the credential is being resolved.
    AwaitingUser { owner: String, name: String },
    /// The repository's permissions are being fetched.
    AwaitingRepo { user: String, owner: String, name: String },
    /// Membership of the owning organization is being checked.
    AwaitingMembership { user: String, owner: String },
    /// The verdict has been given.
    Finished,
}

/// An answer to the last action.
pub enum GateEvent {
    /// The login of the credential's identity, or why it could not be resolved.
    User(Result<String, String>),
    /// The repository as the identity sees it, or why it could not be read.
    Repo(Result<RepoFacts, String>),
    /// Whether the identity is a member; an error counts as `false`.
    Membership(bool),
}

/// What the caller is to do next.
pub enum GateAction {
    /// Resolve the identity behind the credential.
    FetchUser,
    /// Fetch the repository `owner/name`.
    FetchRepo { owner: String, name: String },
    /// Check whether `user` is a member of organization `org`.
    CheckMembership { org: String, user: String },
    /// Stop: `Ok` authorizes, `Err` denies with its reason.
    Finish(Result<(), EnvaError>),
}

/// The decision on a repository's facts.
pub enum Verdict {
    Allow,
    DenyNoRead,
    DenyNotOrg,
    AskMembership,
}

/// `Organization`
pub open spec fn organization_kind() -> Seq<char> {
    seq!['O', 'r', 'g', 'a', 'n', 'i', 'z', 'a', 't', 'i', 'o', 'n']
}

/// Push permission authorizes; otherwise read permission, an organization owner
/// and membership are all needed. No permissions reported counts as none.
pub open spec fn verdict(permissions: Option<Permissions>, owner_kind: Option<Seq<char>>) -> Verdict {
    match permissions {
        None => Verdict::DenyNoRead,
        Some(p) => if p.push {
            Verdict::Allow
        } else if !p.pull {
            Verdict::DenyNoRead
        } else {
            match owner_kind {
                Some(k) => if k == organization_kind() {
                    Verdict::AskMembership
                } else {
                    Verdict::DenyNotOrg
                },
                None => Verdict::DenyNotOrg,
            }
        },
    }
}

pub open spec fn owner_kind_of(facts: RepoFacts) -> Option<Seq<char>> {
    match facts.owner {
        Some(o) => Some(o.kind@),
        None => None,
    }
}

/// An identity with push permission is authorized, whatever the owner and
/// whatever its memberships; membership is then never asked.
pub proof fn push_always_authorized(permissions: Permissions, owner_kind: Option<Seq<char>>)
    requires
        permissions.push,
    ensures
        verdict(Some(permissions), owner_kind) == Verdict::Allow,
{
}

/// An identity with only pull permission on a repository that no organization
/// owns is denied as `NotOrgOwned`.
pub proof fn pull_only_outside_org_denied(permissions: Permissions, owner_kind: Option<Seq<char>>)
    requires
        !permissions.push,
        permissions.pull,
        owner_kind is None || owner_kind->0 != organization_kind(),
    ensures
        verdict(Some(permissions), owner_kind) == Verdict::DenyNotOrg,
{
}

fn is_organization(kind: &String) -> (r: bool)
    ensures
        r == (kind@ == organization_kind()),
{
    let org = String::from_str("Organization");
    proof {
        reveal_strlit("Organization");
        assert(org@ =~= organization_kind());
    }
    *kind == org
}

/// Decides on a repository's facts.
pub fn decide(facts: &RepoFacts) -> (r: Verdict)
    ensures
        r == verdict(facts.permissions, owner_kind_of(*facts)),
{
    match facts.permissions {
        None => Verdict::DenyNoRead,
        Some(p) => if p.push {
            Verdict::Allow
        } else if !p.pull {
            Verdict::DenyNoRead
        } else {
            match &facts.owner {
                Some(o) => if is_organization(&o.kind) {
                    Verdict::AskMembership
                } else {
                    Verdict::DenyNotOrg
                },
                None => Verdict::DenyNotOrg,
            }
        },
    }
}

/// Starts authorizing a credential for the repository at `repo_url`: asks for the identity, or
/// finishes with `InvalidRepoUrl` where the address names no repository.
pub fn gate_start(repo_url: &str) -> (r: (GateState, GateAction))
    ensures
        match github_repo_of(repo_url@) {
            None => r.0 is Finished && r.1 is Finish
                && r.1->Finish_0 is Err && is_invalid_url(r.1->Finish_0->Err_0, repo_url@),
            Some((o, n)) => r.0 is AwaitingUser && r.0->AwaitingUser_owner@ == o
                && r.0->AwaitingUser_name@ == n && r.1 is FetchUser,
        },
{
    match parse_github_repo(repo_url) {
        None => (GateState::Finished, GateAction::Finish(Err(EnvaError::InvalidRepoUrl(String::from_str(repo_url))))),
        Some((owner, name)) => (GateState::AwaitingUser { owner, name }, GateAction::FetchUser),
    }
}

/// Whether `event` answers what `state` waits for.
pub open spec fn answers(state: GateState, event: GateEvent) -> bool {
    match state {
        GateState::AwaitingUser { .. } => event is User,
        GateState::AwaitingRepo { .. } => event is Repo,
        GateState::AwaitingMembership { .. } => event is Membership,
        GateState::Finished => false,
    }
}

/// Advances the authorization by one answer.
pub fn gate_step(state: GateState, event: GateEvent) -> (r: (GateState, GateAction))
    requires
        answers(state, event),
    ensures
        match (state, event) {
            (GateState::AwaitingUser { owner, name }, GateEvent::User(Ok(user))) =>
                r.0 is AwaitingRepo && r.0->AwaitingRepo_user@ == user@
                && r.0->AwaitingRepo_owner@ == owner@ && r.0->AwaitingRepo_name@ == name@
                && r.1 is FetchRepo && r.1->FetchRepo_owner@ == owner@ && r.1->FetchRepo_name@ == name@,
            (GateState::AwaitingUser { .. }, GateEvent::User(Err(m))) =>
                r.0 is Finished && r.1 is Finish && r.1->Finish_0 is Err
                && r.1->Finish_0->Err_0 is Unauthenticated
                && r.1->Finish_0->Err_0->Unauthenticated_0@ == m@,
            (GateState::AwaitingRepo { .. }, GateEvent::Repo(Err(m))) =>
                r.0 is Finished && r.1 is Finish && r.1->Finish_0 is Err
                && r.1->Finish_0->Err_0 is RepoAccessDenied
                && r.1->Finish_0->Err_0->RepoAccessDenied_0@ == m@,
            (GateState::AwaitingRepo { user, owner, .. }, GateEvent::Repo(Ok(facts))) =>
                match verdict(facts.permissions, owner_kind_of(facts)) {
                    Verdict::Allow => r.0 is Finished && r.1 is Finish && r.1->Finish_0 is Ok,
                    Verdict::DenyNoRead => r.0 is Finished && r.1 is Finish
                        && r.1->Finish_0 == Err::<(), EnvaError>(EnvaError::InsufficientPermission),
                    Verdict::DenyNotOrg => r.0 is Finished && r.1 is Finish
                        && r.1->Finish_0 == Err::<(), EnvaError>(EnvaError::NotOrgOwned),
                    Verdict::AskMembership => r.0 is AwaitingMembership
                        && r.0->AwaitingMembership_user@ == user@
                        && r.0->AwaitingMembership_owner@ == owner@
                        && r.1 is CheckMembership
                        && r.1->CheckMembership_org@ == facts.owner->0.login@
                        && r.1->CheckMembership_user@ == user@,
                },
            (GateState::AwaitingMembership { user, owner }, GateEvent::Membership(m)) =>
                r.0 is Finished && r.1 is Finish && if m {
                    r.1->Finish_0 is Ok
                } else {
                    r.1->Finish_0 is Err && r.1->Finish_0->Err_0 is NotOrgMember
                    && r.1->Finish_0->Err_0->NotOrgMember_user@ == user@
                    && r.1->Finish_0->Err_0->NotOrgMember_org@ == owner@
                },
            _ => false,
        },
{
    match state {
        GateState::AwaitingUser { owner, name } => match event {
            GateEvent::User(Ok(user)) => {
                let o2 = owner.clone();
                let n2 = name.clone();
                (GateState::AwaitingRepo { user, owner, name }, GateAction::FetchRepo { owner: o2, name: n2 })
            },
            GateEvent::User(Err(m)) => (GateState::Finished, GateAction::Finish(Err(EnvaError::Unauthenticated(m)))),
            _ => (GateState::Finished, GateAction::Finish(Err(EnvaError::NetworkError))),
        },
        GateState::AwaitingRepo { user, owner, name } => match event {
            GateEvent::Repo(Err(m)) => (GateState::Finished, GateAction::Finish(Err(EnvaError::RepoAccessDenied(m)))),
            GateEvent::Repo(Ok(facts)) => match decide(&facts) {
                Verdict::Allow => (GateState::Finished, GateAction::Finish(Ok(()))),
                Verdict::DenyNoRead => (GateState::Finished, GateAction::Finish(Err(EnvaError::InsufficientPermission))),
                Verdict::DenyNotOrg => (GateState::Finished, GateAction::Finish(Err(EnvaError::NotOrgOwned))),
                Verdict::AskMembership => {
                    let org = match &facts.owner {
                        Some(o) => o.login.clone(),
                        None => String::new(),
                    };
                    let u2 = user.clone();
                    (GateState::AwaitingMembership { user, owner }, GateAction::CheckMembership { org, user: u2 })
                },
            },
            _ => (GateState::Finished, GateAction::Finish(Err(EnvaError::NetworkError))),
        },
        GateState::AwaitingMembership { user, owner } => match event {
            GateEvent::Membership(m) => if m {
                (GateState::Finished, GateAction::Finish(Ok(())))
            } else {
                (GateState::Finished, GateAction::Finish(Err(EnvaError::NotOrgMember { user, org: owner })))
            },
            _ => (GateState::Finished, GateAction::Finish(Err(EnvaError::NetworkError))),
        },
        GateState::Finished => (GateState::Finished, GateAction::Finish(Err(EnvaError::NetworkError))),
    }
}

} // verus!
