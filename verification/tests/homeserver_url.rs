use relay_bot::homeserver::{validate_homeserver_url, StartupError};

fn s(x: &str) -> String {
    x.to_owned()
}

#[test]
fn well_formed_homeserver_url_is_accepted() {
    let parsed = validate_homeserver_url(&s("https://matrix.example.org")).expect("a valid URL");
    assert_eq!(parsed.scheme(), "https");
    assert_eq!(parsed.host_str(), Some("matrix.example.org"));
}

#[test]
fn malformed_homeserver_url_aborts_startup() {
    assert!(matches!(
        validate_homeserver_url(&s("not a url")),
        Err(StartupError::MalformedHomeserverUrl)
    ));
}

#[test]
fn relative_reference_is_not_a_homeserver() {
    assert!(matches!(
        validate_homeserver_url(&s("/just/a/path")),
        Err(StartupError::MalformedHomeserverUrl)
    ));
}
