use enva::repo::parse_github_repo;

fn pair(a: &str, b: &str) -> Option<(String, String)> {
    Some((a.to_string(), b.to_string()))
}

#[test]
fn ssh_form_parses() {
    assert_eq!(parse_github_repo("git@github.com:acme/widgets.git"), pair("acme", "widgets"));
}

#[test]
fn https_form_parses() {
    assert_eq!(parse_github_repo("https://github.com/acme/widgets"), pair("acme", "widgets"));
}

#[test]
fn https_form_strips_git_suffix() {
    assert_eq!(parse_github_repo("https://github.com/acme/widgets.git"), pair("acme", "widgets"));
}

#[test]
fn ssh_form_without_suffix_parses() {
    assert_eq!(parse_github_repo("git@github.com:acme/widgets"), pair("acme", "widgets"));
}

#[test]
fn both_forms_give_the_same_identity() {
    assert_eq!(
        parse_github_repo("git@github.com:acme/widgets.git"),
        parse_github_repo("https://github.com/acme/widgets")
    );
}

#[test]
fn other_host_has_no_identity() {
    assert_eq!(parse_github_repo("https://gitlab.com/acme/widgets"), None);
}

#[test]
fn three_segments_have_no_identity() {
    assert_eq!(parse_github_repo("https://github.com/acme/widgets/tree"), None);
}

#[test]
fn one_segment_has_no_identity() {
    assert_eq!(parse_github_repo("https://github.com/acme"), None);
}

#[test]
fn ssh_form_with_three_parts_has_no_identity() {
    assert_eq!(parse_github_repo("git@github.com:acme/widgets/extra.git"), None);
}

#[test]
fn garbage_has_no_identity() {
    assert_eq!(parse_github_repo("not a url"), None);
    assert_eq!(parse_github_repo(""), None);
}
