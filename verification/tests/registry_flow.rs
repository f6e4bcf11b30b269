use commit_email::config::Config;
use commit_email::flow::FlowStep;
use commit_email::flow::apply_choice;
use commit_email::flow::next_step;
use commit_email::flow::primary_remote;
use commit_email::identity::IdentityScope;
use commit_email::identity::local_identity_of;
use commit_email::locator::parse_url_string;

#[test]
fn add_email_is_idempotent() {
    let mut config = Config::new();
    config.add_email("a@b.com");
    config.add_email("c@d.com");
    config.add_email("a@b.com");
    let emails = config.known_emails();
    assert_eq!(emails.len(), 2);
    assert_eq!(emails[0], "a@b.com");
    assert_eq!(emails[1], "c@d.com");
}

#[test]
fn add_ignore_url_is_idempotent() {
    let mut config = Config::new();
    let a = parse_url_string("git@github.com:mkqavi/commit-email.git").unwrap();
    let b = parse_url_string("ssh://git@github.com/mkqavi/commit-email").unwrap();
    config.add_ignore_url(&a);
    config.add_ignore_url(&b);
    assert_eq!(config.ignored_urls().len(), 1);
    assert_eq!(config.ignored_urls()[0].as_str(), "ssh://git@github.com/mkqavi/commit-email");
}

#[test]
fn is_ignored_whatever_form_produced_the_url() {
    let mut config = Config::new();
    let from_shorthand = parse_url_string("git@github.com:mkqavi/commit-email.git").unwrap();
    config.add_ignore_url(&from_shorthand);
    let from_full_url = parse_url_string("ssh://git@github.com/mkqavi/commit-email").unwrap();
    assert!(config.ignores(&from_full_url));
    assert!(config.ignores(&from_shorthand));
    let other = parse_url_string("ssh://git@github.com/elsewhere").unwrap();
    assert!(!config.ignores(&other));
}

#[test]
fn local_identity_ignores_broader_scopes() {
    assert_eq!(
        local_identity_of(IdentityScope::Global, Some("g@h.com".to_string())),
        None
    );
    assert_eq!(
        local_identity_of(IdentityScope::Other, Some("g@h.com".to_string())),
        None
    );
    assert_eq!(
        local_identity_of(IdentityScope::Local, Some("l@h.com".to_string())),
        Some("l@h.com".to_string())
    );
    assert_eq!(local_identity_of(IdentityScope::Local, None), None);
}

#[test]
fn ignored_remote_short_circuits() {
    let mut config = Config::new();
    let url = parse_url_string("git@github.com:mkqavi/commit-email.git").unwrap();
    config.add_ignore_url(&url);
    let again = parse_url_string("ssh://git@github.com/mkqavi/commit-email").unwrap();
    let step = next_step(&config, &Some(again), &None);
    assert_eq!(step, FlowStep::Ignored);
    // Nothing was mutated by deciding.
    assert_eq!(config.ignored_urls().len(), 1);
    assert_eq!(config.known_emails().len(), 0);
}

#[test]
fn local_identity_short_circuits() {
    let config = Config::new();
    let url = parse_url_string("ssh://git@github.com/mkqavi/commit-email").unwrap();
    let step = next_step(&config, &Some(url), &Some("l@h.com".to_string()));
    assert_eq!(step, FlowStep::HasLocalIdentity);
}

#[test]
fn unresolvable_remote_is_never_ignored() {
    let config = Config::new();
    let step = next_step(&config, &None, &None);
    assert_eq!(step, FlowStep::AwaitingChoice);
}

#[test]
fn chosen_email_is_recorded_once_and_returned() {
    let mut config = Config::new();
    let url = parse_url_string("ssh://git@github.com/mkqavi/commit-email").unwrap();
    assert_eq!(next_step(&config, &Some(url.clone()), &None), FlowStep::AwaitingChoice);

    let to_set = apply_choice(&mut config, Some("a@b.com"), &Some(url.clone()));
    assert_eq!(to_set, Some("a@b.com".to_string()));
    assert_eq!(config.known_emails().len(), 1);
    assert_eq!(config.known_emails()[0], "a@b.com");
    assert_eq!(config.ignored_urls().len(), 0);

    // Choosing the same email again changes nothing.
    let to_set = apply_choice(&mut config, Some("a@b.com"), &Some(url));
    assert_eq!(to_set, Some("a@b.com".to_string()));
    assert_eq!(config.known_emails().len(), 1);
}

#[test]
fn dismissal_ignores_the_remote() {
    let mut config = Config::new();
    config.add_email("kept@before.com");
    let url = parse_url_string("ssh://git@github.com/mkqavi/commit-email").unwrap();
    let to_set = apply_choice(&mut config, None, &Some(url.clone()));
    assert_eq!(to_set, None);
    assert!(config.ignores(&url));
    assert_eq!(config.known_emails().len(), 1);
}

#[test]
fn dismissal_without_url_changes_nothing() {
    let mut config = Config::new();
    let to_set = apply_choice(&mut config, None, &None);
    assert_eq!(to_set, None);
    assert_eq!(config.ignored_urls().len(), 0);
    assert_eq!(config.known_emails().len(), 0);
}

#[test]
fn email_choices_lead_with_the_global_sentinel() {
    let mut config = Config::new();
    config.add_email("a@b.com");
    config.add_email("c@d.com");
    let choices = config.get_emails(Some("g@h.com"));
    assert_eq!(choices.len(), 3);
    assert_eq!(choices[0].0, "Always use Global <g@h.com>");
    assert_eq!(choices[0].1, None);
    assert_eq!(choices[1], ("a@b.com".to_string(), Some("a@b.com".to_string())));
    assert_eq!(choices[2], ("c@d.com".to_string(), Some("c@d.com".to_string())));
}

#[test]
fn email_choices_without_global_identity() {
    let mut config = Config::new();
    config.add_email("a@b.com");
    let choices = config.get_emails(None);
    assert_eq!(choices.len(), 1);
    assert_eq!(choices[0], ("a@b.com".to_string(), Some("a@b.com".to_string())));
}

#[test]
fn primary_remote_prefers_origin() {
    let names = vec![
        "upstream".to_string(),
        "origin".to_string(),
        "fork".to_string(),
    ];
    assert_eq!(primary_remote(&names), Some(&"origin".to_string()));
}

#[test]
fn primary_remote_falls_back_to_first() {
    let names = vec!["upstream".to_string(), "fork".to_string()];
    assert_eq!(primary_remote(&names), Some(&"upstream".to_string()));
}

#[test]
fn primary_remote_of_no_remotes() {
    let names: Vec<String> = Vec::new();
    assert_eq!(primary_remote(&names), None);
}
