use enva::error::EnvaError;
use enva::gate::{decide, gate_start, gate_step, GateAction, GateEvent, GateState, Permissions, RepoFacts, RepoOwner, Verdict};

fn facts(push: bool, pull: bool, kind: Option<&str>) -> RepoFacts {
    RepoFacts {
        permissions: Some(Permissions { push, pull }),
        owner: kind.map(|k| RepoOwner { login: "acme".to_string(), kind: k.to_string() }),
    }
}

fn run(f: RepoFacts, member: bool) -> Result<(), EnvaError> {
    let (st, act) = gate_start("https://github.com/acme/widgets");
    assert!(matches!(act, GateAction::FetchUser));
    let (st, act) = gate_step(st, GateEvent::User(Ok("alice".to_string())));
    match act {
        GateAction::FetchRepo { owner, name } => {
            assert_eq!(owner, "acme");
            assert_eq!(name, "widgets");
        }
        _ => panic!("expected a repository lookup"),
    }
    let (st, act) = gate_step(st, GateEvent::Repo(Ok(f)));
    match act {
        GateAction::Finish(r) => r,
        GateAction::CheckMembership { org, user } => {
            assert_eq!(org, "acme");
            assert_eq!(user, "alice");
            match gate_step(st, GateEvent::Membership(member)).1 {
                GateAction::Finish(r) => r,
                _ => panic!("expected a verdict"),
            }
        }
        _ => panic!("unexpected action"),
    }
}

#[test]
fn push_is_authorized_regardless_of_membership() {
    assert_eq!(run(facts(true, true, Some("Organization")), false), Ok(()));
    assert_eq!(run(facts(true, false, Some("User")), false), Ok(()));
    assert_eq!(run(facts(true, true, None), false), Ok(()));
}

#[test]
fn pull_only_on_user_repo_is_not_org_owned() {
    assert_eq!(run(facts(false, true, Some("User")), true), Err(EnvaError::NotOrgOwned));
    assert_eq!(run(facts(false, true, None), true), Err(EnvaError::NotOrgOwned));
}

#[test]
fn no_read_is_insufficient() {
    assert_eq!(run(facts(false, false, Some("Organization")), true), Err(EnvaError::InsufficientPermission));
    let none = RepoFacts { permissions: None, owner: None };
    assert_eq!(run(none, true), Err(EnvaError::InsufficientPermission));
}

#[test]
fn org_member_with_read_is_authorized() {
    assert_eq!(run(facts(false, true, Some("Organization")), true), Ok(()));
}

#[test]
fn org_non_member_is_denied() {
    let r = run(facts(false, true, Some("Organization")), false);
    let e = r.unwrap_err();
    assert_eq!(e, EnvaError::NotOrgMember { user: "alice".to_string(), org: "acme".to_string() });
    assert_eq!(e.message(), "User alice is not a member of organization acme");
}

#[test]
fn bad_credential_is_unauthenticated() {
    let (st, _) = gate_start("git@github.com:acme/widgets.git");
    let (st, act) = gate_step(st, GateEvent::User(Err("Bad credentials".to_string())));
    assert!(matches!(st, GateState::Finished));
    match act {
        GateAction::Finish(Err(EnvaError::Unauthenticated(m))) => assert_eq!(m, "Bad credentials"),
        _ => panic!("expected Unauthenticated"),
    }
}

#[test]
fn unreadable_repo_is_access_denied() {
    let (st, _) = gate_start("https://github.com/acme/widgets");
    let (st, _) = gate_step(st, GateEvent::User(Ok("alice".to_string())));
    let (_, act) = gate_step(st, GateEvent::Repo(Err("Not Found".to_string())));
    match act {
        GateAction::Finish(Err(EnvaError::RepoAccessDenied(m))) => assert_eq!(m, "Not Found"),
        _ => panic!("expected RepoAccessDenied"),
    }
}

#[test]
fn invalid_url_finishes_at_once() {
    let (st, act) = gate_start("https://example.com/a/b");
    assert!(matches!(st, GateState::Finished));
    assert!(matches!(act, GateAction::Finish(Err(EnvaError::InvalidRepoUrl(_)))));
}

#[test]
fn decide_matches_rule() {
    assert!(matches!(decide(&facts(true, false, None)), Verdict::Allow));
    assert!(matches!(decide(&facts(false, true, Some("Organization"))), Verdict::AskMembership));
    assert!(matches!(decide(&facts(false, true, Some("organization"))), Verdict::DenyNotOrg));
}
