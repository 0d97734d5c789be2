use link_moderator::webhook::repository::extract_repository;

fn found(owner: &str, repo: &str) -> Result<(String, String), ()> {
    Ok((owner.to_string(), repo.to_string()))
}

#[test]
fn owner_and_name_are_read_out_of_a_resource_url() {
    assert_eq!(
        extract_repository("https://api.example.com/repos/acme/widget"),
        found("acme", "widget")
    );
    assert_eq!(
        extract_repository("https://api.github.com/repos/rust-lang/rust"),
        found("rust-lang", "rust")
    );
}

#[test]
fn what_follows_the_name_is_left_out() {
    assert_eq!(
        extract_repository("https://api.example.com/repos/acme/widget/issues/17"),
        found("acme", "widget")
    );
    assert_eq!(
        extract_repository("https://api.example.com/repos/acme/widget/"),
        found("acme", "widget")
    );
    assert_eq!(
        extract_repository("https://api.example.com/repos/acme/widget?page=2"),
        found("acme", "widget")
    );
    assert_eq!(
        extract_repository("https://api.example.com/repos/acme/widget#readme"),
        found("acme", "widget")
    );
}

#[test]
fn a_url_of_another_path_names_no_repository() {
    assert_eq!(extract_repository("https://api.example.com/users/acme"), Err(()));
    assert_eq!(extract_repository("https://api.example.com/repositories/acme/widget"), Err(()));
    assert_eq!(extract_repository("https://api.example.com/v3/repos/acme/widget"), Err(()));
    assert_eq!(extract_repository("https://api.example.com/repos"), Err(()));
    assert_eq!(extract_repository("https://api.example.com/repos/"), Err(()));
    assert_eq!(extract_repository("https://api.example.com/Repos/acme/widget"), Err(()));
}

#[test]
fn a_missing_owner_or_name_is_not_made_up() {
    assert_eq!(extract_repository("https://api.example.com/repos/acme"), Err(()));
    assert_eq!(extract_repository("https://api.example.com/repos/acme/"), Err(()));
    assert_eq!(extract_repository("https://api.example.com/repos//widget"), Err(()));
    assert_eq!(extract_repository("https://api.example.com/repos/acme//widget"), Err(()));
    assert_eq!(extract_repository("https://api.example.com/repos/acme?x/widget"), Err(()));
    assert_eq!(extract_repository("https://api.example.com/repos/acme/?widget"), Err(()));
}

#[test]
fn a_url_of_another_host_or_scheme_names_no_repository() {
    assert_eq!(extract_repository("https://example.com/repos/acme/widget"), Err(()));
    assert_eq!(extract_repository("https://www.example.com/repos/acme/widget"), Err(()));
    assert_eq!(extract_repository("http://api.example.com/repos/acme/widget"), Err(()));
    assert_eq!(extract_repository("HTTPS://api.example.com/repos/acme/widget"), Err(()));
    assert_eq!(extract_repository("https://api./repos/acme/widget"), Err(()));
    assert_eq!(extract_repository("https://api.example.com"), Err(()));
    assert_eq!(extract_repository("https://api."), Err(()));
    assert_eq!(extract_repository("https://api"), Err(()));
    assert_eq!(extract_repository(" https://api.example.com/repos/acme/widget"), Err(()));
    assert_eq!(extract_repository(""), Err(()));
}

#[test]
fn names_are_read_by_character() {
    assert_eq!(
        extract_repository("https://api.b\u{fc}cher.example/repos/m\u{fc}ller/caf\u{e9}/x"),
        found("m\u{fc}ller", "caf\u{e9}")
    );
    assert_eq!(
        extract_repository("https://api.example.com:8443/repos/a/b"),
        found("a", "b")
    );
    assert_eq!(
        extract_repository("https://api.example.com/repos/acme/widget.rs"),
        found("acme", "widget.rs")
    );
}

#[test]
fn a_url_that_names_a_user_before_its_host_names_no_repository() {
    assert_eq!(extract_repository("https://api.github.com@evil.com/repos/a/b"), Err(()));
    assert_eq!(extract_repository("https://api.github.com:x@evil.com/repos/a/b"), Err(()));
    assert_eq!(extract_repository("https://api.@evil.com/repos/a/b"), Err(()));
    assert_eq!(extract_repository("https://api.github.com@/repos/a/b"), Err(()));
    assert_eq!(extract_repository("https://user@api.github.com/repos/a/b"), Err(()));
    assert_eq!(extract_repository("https://api.github.com\\evil.com/repos/a/b"), Err(()));
    assert_eq!(
        extract_repository("https://api.github.com/repos/a@b/c@d"),
        found("a@b", "c@d")
    );
}
