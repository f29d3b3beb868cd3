use jslinks::args;
use jslinks::config::user_agent_or_default;

#[test]
fn absent_options_fall_back_to_defaults() {
    let a = args(None, None, None, None, None);
    assert_eq!(a.concurrency, 4);
    assert_eq!(a.timeout, 15);
    assert!(a.input.is_none());
    assert!(a.output.is_none());
    assert!(a.user_agent.is_none());
}

#[test]
fn given_options_are_kept() {
    let a = args(
        Some(String::from("urls.txt")),
        Some(String::from("agent/1.0")),
        Some(String::from("out.txt")),
        Some(8),
        Some(30),
    );
    assert_eq!(a.input.as_deref(), Some("urls.txt"));
    assert_eq!(a.user_agent.as_deref(), Some("agent/1.0"));
    assert_eq!(a.output.as_deref(), Some("out.txt"));
    assert_eq!(a.concurrency, 8);
    assert_eq!(a.timeout, 30);
}

#[test]
fn user_agent_defaults_to_the_application_identifier() {
    assert_eq!(user_agent_or_default(None), "jslinks/0.1.0");
    assert_eq!(user_agent_or_default(Some(String::from("me"))), "me");
}
