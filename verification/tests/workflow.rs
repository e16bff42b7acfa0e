use ddns_gcloud::cache::CacheRead;
use ddns_gcloud::records::{Change, RecordSet};
use ddns_gcloud::session::{
    choose_client, load_client, required_scopes, Command, ConfigError, Consent, Opt,
    OptAuthenticatorDelegate,
};
use ddns_gcloud::workflow::{step, Action, Event, Failure, Outcome, Phase, Run};

fn opt(command: Command, cache: Option<&str>, force: bool) -> Opt {
    Opt {
        secrets: "secrets.json".to_string(),
        tokens: "tokens.json".to_string(),
        change_id: None,
        cache: cache.map(|c| c.to_string()),
        cache_only_update: force,
        project_id: "project-1".to_string(),
        zone_name: "example".to_string(),
        record_name: "www.example.com.".to_string(),
        record_ttl: 300,
        record_type: "A".to_string(),
        command,
    }
}

fn scopes() -> Vec<String> {
    vec![
        "https://www.googleapis.com/auth/ndev.clouddns.readonly".to_string(),
        "https://www.googleapis.com/auth/cloud-platform".to_string(),
    ]
}

fn response(body: &str) -> Event {
    Event::AddressResponse { status: 200, body: body.as_bytes().to_vec() }
}

fn list_action() -> Action {
    Action::List { project_id: "project-1".to_string(), zone_name: "example".to_string() }
}

fn fresh(address: &str) -> RecordSet {
    RecordSet {
        name: Some("www.example.com.".to_string()),
        type_: Some("A".to_string()),
        ttl: Some(300),
        rrdatas: Some(vec![address.to_string()]),
        kind: Some("dns#resourceRecordSet".to_string()),
        signature_rrdatas: Some(vec![]),
    }
}

fn stopped(outcome: Outcome) -> Action {
    Action::Stop { outcome, output: None }
}

/// Drives a run to the point where the address is known.
fn resolved(o: &Opt, body: &str) -> (Run, Action) {
    let (run, action) = step(o, Run::new(), Event::Begin);
    assert_eq!(action, Action::AcquireSession { interactive: false, scopes: scopes() });
    assert_eq!(run.current_phase(), Phase::Session);
    let (run, action) = step(o, run, Event::SessionGranted);
    assert_eq!(action, Action::Lookup);
    step(o, run, response(body))
}

#[test]
fn required_scopes_are_the_two_urls() {
    assert_eq!(required_scopes(), scopes());
}

#[test]
fn no_cache_file_empty_listing() {
    let o = opt(Command::SetRecord, Some("ip.txt"), false);
    let (run, action) = resolved(&o, "203.0.113.5\n");
    assert_eq!(action, Action::ReadCache { path: "ip.txt".to_string() });
    let (run, action) = step(&o, run, Event::Cache(CacheRead::Missing));
    assert_eq!(
        action,
        Action::WriteCache { path: "ip.txt".to_string(), line: "203.0.113.5\n".to_string() }
    );
    let (run, action) = step(&o, run, Event::CacheStored);
    assert_eq!(action, list_action());
    let (run, action) = step(&o, run, Event::Listed(Some(vec![])));
    assert_eq!(
        action,
        Action::Submit {
            change: Change {
                additions: Some(vec![fresh("203.0.113.5")]),
                deletions: None,
                client_operation_id: None,
            },
            project_id: "project-1".to_string(),
            zone_name: "example".to_string(),
        }
    );
    assert!(!run.is_finished());
    let (run, action) = step(&o, run, Event::Submitted);
    assert_eq!(action, stopped(Outcome::Updated));
    assert!(run.is_finished());
}

#[test]
fn cache_holds_address_skips() {
    let o = opt(Command::SetRecord, Some("ip.txt"), false);
    let (run, _) = resolved(&o, "203.0.113.5");
    let (run, action) =
        step(&o, run, Event::Cache(CacheRead::Contents("203.0.113.5\n".to_string())));
    assert_eq!(action, stopped(Outcome::Skipped));
    assert!(run.is_finished());
    let (run, action) = step(&o, run, Event::Listed(None));
    assert_eq!(action, stopped(Outcome::Failed(Failure::OutOfTurn)));
    assert!(run.is_finished());
}

#[test]
fn forced_update_ignores_equal_cache() {
    let o = opt(Command::SetRecord, Some("ip.txt"), true);
    let (run, _) = resolved(&o, "203.0.113.5");
    let (run, action) =
        step(&o, run, Event::Cache(CacheRead::Contents("203.0.113.5\n".to_string())));
    assert_eq!(
        action,
        Action::WriteCache { path: "ip.txt".to_string(), line: "203.0.113.5\n".to_string() }
    );
    assert_eq!(run.current_phase(), Phase::CacheWrite);
}

#[test]
fn differing_cache_is_overwritten() {
    let o = opt(Command::SetRecord, Some("ip.txt"), false);
    let (run, _) = resolved(&o, "203.0.113.9");
    let (_, action) = step(&o, run, Event::Cache(CacheRead::Contents("203.0.113.1\n".to_string())));
    assert_eq!(
        action,
        Action::WriteCache { path: "ip.txt".to_string(), line: "203.0.113.9\n".to_string() }
    );
}

#[test]
fn existing_record_replaced_without_cache() {
    let mut o = opt(Command::SetRecord, None, false);
    o.change_id = Some("change-7".to_string());
    let (run, action) = resolved(&o, " 203.0.113.9 ");
    assert_eq!(action, list_action());
    let old = RecordSet {
        name: Some("www.example.com.".to_string()),
        type_: Some("A".to_string()),
        ttl: None,
        rrdatas: Some(vec!["203.0.113.1".to_string()]),
        kind: None,
        signature_rrdatas: None,
    };
    let other = RecordSet {
        name: Some("www.example.com.".to_string()),
        type_: Some("TXT".to_string()),
        ttl: Some(5),
        rrdatas: Some(vec!["v=spf1".to_string()]),
        kind: None,
        signature_rrdatas: None,
    };
    let (_, action) = step(&o, run, Event::Listed(Some(vec![other, old.clone()])));
    assert_eq!(
        action,
        Action::Submit {
            change: Change {
                additions: Some(vec![fresh("203.0.113.9")]),
                deletions: Some(vec![old]),
                client_operation_id: Some("change-7".to_string()),
            },
            project_id: "project-1".to_string(),
            zone_name: "example".to_string(),
        }
    );
}

#[test]
fn ip_command_only_prints() {
    let o = opt(Command::IP, Some("ip.txt"), true);
    let (run, action) = resolved(&o, "203.0.113.5\n");
    assert_eq!(
        action,
        Action::Stop { outcome: Outcome::Printed, output: Some("203.0.113.5".to_string()) }
    );
    assert!(run.is_finished());
}

#[test]
fn authenticate_may_prompt_and_ends_after_session() {
    let o = opt(Command::Authenticate, None, false);
    let (run, action) = step(&o, Run::new(), Event::Begin);
    assert_eq!(action, Action::AcquireSession { interactive: true, scopes: scopes() });
    let (run, action) = step(&o, run, Event::SessionGranted);
    assert_eq!(action, stopped(Outcome::Authenticated));
    assert!(run.is_finished());
}

#[test]
fn each_failure_ends_the_run() {
    let o = opt(Command::SetRecord, Some("ip.txt"), false);
    let (run, _) = step(&o, Run::new(), Event::Begin);
    let (run, action) = step(&o, run, Event::SessionDenied);
    assert_eq!(action, stopped(Outcome::Failed(Failure::NotAuthenticated)));
    assert!(run.is_finished());

    let (_, action) = resolved(&o, "not an address");
    assert_eq!(action, stopped(Outcome::Failed(Failure::Resolution)));

    let (run, _) = step(&o, Run::new(), Event::Begin);
    let (run, _) = step(&o, run, Event::SessionGranted);
    let (_, action) =
        step(&o, run, Event::AddressResponse { status: 503, body: b"203.0.113.5".to_vec() });
    assert_eq!(action, stopped(Outcome::Failed(Failure::Resolution)));

    let (run, _) = step(&o, Run::new(), Event::Begin);
    let (run, _) = step(&o, run, Event::SessionGranted);
    let (_, action) =
        step(&o, run, Event::AddressResponse { status: 200, body: vec![0x32, 0xff, 0x2e] });
    assert_eq!(action, stopped(Outcome::Failed(Failure::Resolution)));

    let (run, _) = step(&o, Run::new(), Event::Begin);
    let (run, _) = step(&o, run, Event::SessionGranted);
    let (_, action) = step(&o, run, Event::AddressUnavailable);
    assert_eq!(action, stopped(Outcome::Failed(Failure::Resolution)));

    let (run, _) = resolved(&o, "203.0.113.5");
    let (_, action) = step(&o, run, Event::Cache(CacheRead::Unreadable));
    assert_eq!(action, stopped(Outcome::Failed(Failure::Cache)));

    let (run, _) = resolved(&o, "203.0.113.5");
    let (run, _) = step(&o, run, Event::Cache(CacheRead::Missing));
    let (_, action) = step(&o, run, Event::CacheStoreFailed);
    assert_eq!(action, stopped(Outcome::Failed(Failure::Cache)));

    let (run, _) = resolved(&o, "203.0.113.5");
    let (run, _) = step(&o, run, Event::Cache(CacheRead::Missing));
    let (run, _) = step(&o, run, Event::CacheStored);
    let (_, action) = step(&o, run, Event::ListFailed);
    assert_eq!(action, stopped(Outcome::Failed(Failure::Reconcile)));

    let (run, _) = resolved(&o, "203.0.113.5");
    let (run, _) = step(&o, run, Event::Cache(CacheRead::Missing));
    let (run, _) = step(&o, run, Event::CacheStored);
    let (run, _) = step(&o, run, Event::Listed(None));
    let (_, action) = step(&o, run, Event::SubmitFailed);
    assert_eq!(action, stopped(Outcome::Failed(Failure::Submit)));
}

#[test]
fn answer_out_of_turn_ends_the_run() {
    let o = opt(Command::SetRecord, None, false);
    let (run, action) = step(&o, Run::new(), Event::Submitted);
    assert_eq!(action, stopped(Outcome::Failed(Failure::OutOfTurn)));
    assert!(run.is_finished());
    let (run, _) = step(&o, Run::new(), Event::Begin);
    let (_, action) = step(&o, run, Event::Listed(None));
    assert_eq!(action, stopped(Outcome::Failed(Failure::OutOfTurn)));
}

#[test]
fn consent_is_gated_by_command() {
    let guard = OptAuthenticatorDelegate::from_opts(&opt(Command::Authenticate, None, false));
    assert!(guard.can_interact);
    assert_eq!(guard.present_user_url(), Consent::Prompt);
    for c in [Command::SetRecord, Command::IP] {
        let guard = OptAuthenticatorDelegate::from_opts(&opt(c, None, false));
        assert!(!guard.can_interact);
        assert_eq!(guard.present_user_url(), Consent::Refuse);
    }
}

#[test]
fn installed_descriptor_is_preferred() {
    assert_eq!(choose_client(Some(1), Some(2)), Ok((1, false)));
    assert_eq!(choose_client(Some(1), None), Ok((1, false)));
    assert_eq!(choose_client(None, Some(2)), Ok((2, true)));
    assert_eq!(choose_client::<i32>(None, None), Err(ConfigError::NoClientDescriptor));
}

fn descriptor(client_id: &str) -> String {
    format!(
        "{{\"client_id\":\"{}\",\"client_secret\":\"s\",\"token_uri\":\"t\",\"auth_uri\":\"a\",\"redirect_uris\":[\"r\"]}}",
        client_id
    )
}

#[test]
fn load_client_takes_installed_first() {
    let both = format!(
        "{{\"web\":{},\"installed\":{}}}",
        descriptor("web-id"),
        descriptor("installed-id")
    );
    let (secret, is_web) = load_client(&both).unwrap();
    assert_eq!(secret.client_id, "installed-id");
    assert!(!is_web);
    let installed = format!("{{\"installed\":{}}}", descriptor("only-installed"));
    let (secret, is_web) = load_client(&installed).unwrap();
    assert_eq!(secret.client_id, "only-installed");
    assert!(!is_web);
}

#[test]
fn load_client_falls_back_to_web() {
    let web = format!("{{\"web\":{}}}", descriptor("web-id"));
    let (secret, is_web) = load_client(&web).unwrap();
    assert_eq!(secret.client_id, "web-id");
    assert_eq!(secret.redirect_uris, vec!["r".to_string()]);
    assert!(is_web);
}

#[test]
fn load_client_reports_each_error() {
    assert_eq!(load_client("{}").err(), Some(ConfigError::NoClientDescriptor));
    assert_eq!(load_client("not json").err(), Some(ConfigError::Unparseable));
    assert_eq!(load_client("").err(), Some(ConfigError::Unparseable));
    assert_eq!(load_client("{\"installed\":{\"client_id\":3}}").err(), Some(ConfigError::Unparseable));
}

#[test]
fn exit_code_is_zero_without_failure() {
    for o in [Outcome::Authenticated, Outcome::Printed, Outcome::Skipped, Outcome::Updated] {
        assert_eq!(o.exit_code(), 0);
    }
    for f in [
        Failure::NotAuthenticated,
        Failure::Resolution,
        Failure::Cache,
        Failure::Reconcile,
        Failure::Submit,
        Failure::OutOfTurn,
    ] {
        assert_eq!(Outcome::Failed(f).exit_code(), 1);
    }
}
