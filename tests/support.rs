use kamehameha::support::Operation::{Delete, Get, Head, Post};
use kamehameha::support::{Args, Header, Operation, ScenarioLoad, Settings, SettingsError};

fn settings_for(target: &str) -> Settings {
    Settings {
        clients: 1,
        requests: 1,
        target: target.to_string(),
        keep_alive: None,
        body: None,
        headers: None,
        duration: None,
        verbose: false,
    }
}

#[test]
fn should_set_get_as_default_operation() -> Result<(), SettingsError> {
    let args = Args {
        target: Some("https://localhost:3000".to_string()),
        ..Default::default()
    };

    let settings = Settings::ino_from_args(args, None)?;
    assert_eq!(Get, settings.ino_operation());
    Ok(())
}

#[test]
fn should_get_operation_from_target() -> Result<(), SettingsError> {
    let args = Args {
        target: Some("POST https://localhost:3000".to_string()),
        ..Default::default()
    };

    let settings = Settings::ino_from_args(args, None)?;
    assert_eq!(Post, settings.ino_operation());
    Ok(())
}

#[test]
fn should_get_target_from_target_without_operation() -> Result<(), SettingsError> {
    let args = Args {
        target: Some("https://localhost:3000".to_string()),
        ..Default::default()
    };

    let settings = Settings::ino_from_args(args, None)?;
    assert_eq!("https://localhost:3000", settings.ino_target());
    Ok(())
}

#[test]
fn should_get_target_from_target_with_operation() -> Result<(), SettingsError> {
    let args = Args {
        target: Some("POST https://localhost:3000".to_string()),
        ..Default::default()
    };

    let settings = Settings::ino_from_args(args, None)?;
    assert_eq!("https://localhost:3000", settings.ino_target());
    Ok(())
}

#[test]
fn should_set_get_operation_if_operation_is_not_allowed() -> Result<(), SettingsError> {
    let args = Args {
        target: Some("FOO https://localhost:3000".to_string()),
        ..Default::default()
    };

    let settings = Settings::ino_from_args(args, None)?;
    assert_eq!(Get, settings.ino_operation());
    Ok(())
}

#[test]
fn should_return_error_if_request_body_file_does_not_exists() -> Result<(), SettingsError> {
    let args = Args {
        target: Some("POST https://localhost:3000".to_string()),
        request_body: Some(String::from("foo")),
        ..Default::default()
    };
    match Settings::ino_from_args(args, None) {
        Ok(_) => {}
        Err(e) => {
            assert_eq!(e.to_string(), "Failed to read file from foo")
        }
    }
    Ok(())
}

#[test]
fn should_set_none_headers_if_not_present() -> Result<(), SettingsError> {
    let args = Args {
        target: Some("FOO https://localhost:3000".to_string()),
        request_body: None,
        ..Default::default()
    };
    let settings = Settings::ino_from_args(args, None)?;
    assert_eq!(settings.headers, None);
    Ok(())
}

#[test]
fn should_set_headers() -> Result<(), SettingsError> {
    let args = Args {
        target: Some("FOO https://localhost:3000".to_string()),
        headers: Some(vec![
            "bar:foo".to_string(),
            "Content-Type:application/json".to_string(),
        ]),
        ..Default::default()
    };
    let settings = Settings::ino_from_args(args, None)?;
    assert_eq!(
        settings.headers,
        Some(vec![
            Header {
                key: "bar".to_string(),
                value: "foo".to_string(),
            },
            Header {
                key: "Content-Type".to_string(),
                value: "application/json".to_string(),
            },
        ])
    );
    Ok(())
}

#[test]
fn unreadable_body_file_is_an_error() {
    let args = Args {
        target: Some("POST https://x".to_string()),
        request_body: Some("body.json".to_string()),
        ..Default::default()
    };
    assert_eq!(
        Settings::ino_from_args(args, None),
        Err(SettingsError::UnreadableFile("body.json".to_string()))
    );
}

#[test]
fn body_content_is_attached() {
    let args = Args {
        target: Some("POST https://x".to_string()),
        request_body: Some("body.json".to_string()),
        clients: 4,
        iterations: 10,
        ..Default::default()
    };
    let settings = Settings::ino_from_args(args, Some("{\"a\":1}".to_string())).unwrap();
    assert_eq!(settings.body, Some("{\"a\":1}".to_string()));
    assert_eq!(settings.clients, 4);
    assert_eq!(settings.requests, 10);
    assert_eq!(settings.keep_alive, None);
}

#[test]
fn body_without_file_is_ignored() {
    let args = Args {
        target: Some("https://x".to_string()),
        ..Default::default()
    };
    let settings = Settings::ino_from_args(args, Some("stray".to_string())).unwrap();
    assert_eq!(settings.body, None);
}

#[test]
fn missing_target_is_an_error() {
    let args = Args::default();
    let e = Settings::ino_from_args(args, None).unwrap_err();
    assert_eq!(e, SettingsError::MissingTarget);
    assert_eq!(e.to_string(), "Target URL is required");
}

#[test]
fn malformed_headers_are_dropped_and_trimmed() {
    let args = Args {
        target: Some("https://x".to_string()),
        headers: Some(vec![
            "badheader".to_string(),
            "  bar :  foo ".to_string(),
            "a:b:c".to_string(),
        ]),
        ..Default::default()
    };
    let settings = Settings::ino_from_args(args, None).unwrap();
    assert_eq!(
        settings.headers,
        Some(vec![Header {
            key: "bar".to_string(),
            value: "foo".to_string(),
        }])
    );
}

#[test]
fn header_parsing_single_entry() {
    let h = kamehameha::support::parse_header("bar:foo").unwrap();
    assert_eq!(h.key, "bar");
    assert_eq!(h.value, "foo");
    assert_eq!(kamehameha::support::parse_header("badheader"), None);
}

#[test]
fn target_parsing_cases() {
    let s = settings_for("https://x");
    assert_eq!(s.ino_operation(), Get);
    assert_eq!(s.ino_target(), "https://x");
    let s = settings_for("POST https://x");
    assert_eq!(s.ino_operation(), Post);
    assert_eq!(s.ino_target(), "https://x");
    let s = settings_for("FOO https://x");
    assert_eq!(s.ino_operation(), Get);
    assert_eq!(s.ino_target(), "https://x");
}

#[test]
fn method_is_case_insensitive() {
    assert_eq!(settings_for("post https://x").ino_operation(), Post);
    assert_eq!(settings_for("head https://x").ino_operation(), Head);
    assert_eq!(settings_for("Delete https://x").ino_operation(), Delete);
}

#[test]
fn from_upper_names_each_method() {
    assert_eq!(Operation::from_upper("GET"), Get);
    assert_eq!(Operation::from_upper("PATCH"), Operation::Patch);
    assert_eq!(Operation::from_upper("PUT"), Operation::Put);
    assert_eq!(Operation::from_upper("post"), Get);
}

#[test]
fn target_with_surrounding_whitespace() {
    let s = settings_for("  PUT \t https://x/a  ");
    assert_eq!(s.ino_operation(), Operation::Put);
    assert_eq!(s.ino_target(), "https://x/a");
    assert_eq!(settings_for("").ino_target(), "");
    assert_eq!(settings_for("").ino_operation(), Get);
}

#[test]
fn requests_by_client_drops_remainder() {
    let mut s = settings_for("https://x");
    s.clients = 3;
    s.requests = 10;
    assert_eq!(s.ino_requests_by_client(), 3);
}

#[test]
fn scenario_selects_loaded_settings() {
    let args = Args {
        scenario: Some("run.yaml".to_string()),
        ..Default::default()
    };
    let loaded = settings_for("https://y");
    let r = args.clone().ino_to_string(None, Some(ScenarioLoad::Loaded(loaded.clone())));
    assert_eq!(r, Ok(loaded));
    let r = args.clone().ino_to_string(None, Some(ScenarioLoad::Unreadable));
    assert_eq!(r.unwrap_err().to_string(), "Failed to read file from run.yaml");
    let r = args.clone().ino_to_string(None, Some(ScenarioLoad::Malformed));
    assert_eq!(r, Err(SettingsError::InvalidScenario));
    let r = args.ino_to_string(None, None);
    assert_eq!(r, Err(SettingsError::UnreadableFile("run.yaml".to_string())));
}

#[test]
fn options_used_without_scenario() {
    let args = Args {
        target: Some("https://z".to_string()),
        duration: Some(5),
        verbose: true,
        ..Default::default()
    };
    let s = args.ino_to_string(None, None).unwrap();
    assert_eq!(s.target, "https://z");
    assert_eq!(s.duration, Some(5));
    assert!(s.verbose);
}
