use oncall_roster::config::Config;

#[test]
fn synthesized_default_has_empty_credentials() {
    let c = Config::default();
    assert_eq!(c.email, "");
    assert_eq!(c.password, "");
}
