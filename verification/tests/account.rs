use sio_session::account::{login_arguments, pick_credential};
use sio_session::session::Credential;

fn cookie(name: &str, value: &str) -> (String, String) {
    (name.to_string(), value.to_string())
}

#[test]
fn the_arguments_of_a_login() {
    assert_eq!(
        login_arguments("me@example.org", "hunter2"),
        "{\"email\":\"me@example.org\",\"password\":\"hunter2\",\"only_login\":true}"
    );
    assert_eq!(login_arguments("", ""), "{\"email\":\"\",\"password\":\"\",\"only_login\":true}");
}

#[test]
fn the_first_cookie_under_the_name_is_the_credential() {
    let cookies = vec![cookie("lang", "en"), cookie("auth", "one"), cookie("auth", "two")];
    assert_eq!(
        pick_credential(&cookies),
        Some(Credential { name: "auth".to_string(), value: "one".to_string() })
    );
}

#[test]
fn no_cookie_under_the_name_means_no_credential() {
    assert_eq!(pick_credential(&vec![]), None);
    assert_eq!(pick_credential(&vec![cookie("Auth", "x"), cookie("author", "y")]), None);
}
