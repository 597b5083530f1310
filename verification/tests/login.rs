use migratory::login::{
    check_line, given_username, intro_lines, prompt_answer, token_description, token_path,
};

#[test]
fn token_lives_under_vagrant_home() {
    assert_eq!(token_path(Some("/home/u/.vagrant.d")), "/home/u/.vagrant.d/data/token");
    assert_eq!(token_path(None), ".vagrant.d/data/token");
}

#[test]
fn login_lines() {
    assert_eq!(check_line(true), "You are already logged in.");
    assert_eq!(check_line(false), "You are not currently logged in.");
    let intro = intro_lines();
    assert_eq!(intro.len(), 3);
    assert!(intro[0].starts_with("In a moment we will ask"));
}

#[test]
fn login_credentials() {
    assert_eq!(given_username(Some("alice")).as_deref(), Some("alice"));
    assert_eq!(given_username(Some("")), None);
    assert_eq!(given_username(None), None);
    assert_eq!(token_description(None), "Migratory login from CLI");
    assert_eq!(token_description(Some("laptop")), "laptop");
    assert_eq!(prompt_answer("  bob\n"), "bob");
    assert_eq!(prompt_answer("\n"), "");
}
