use jobwatch::dispatcher::parse_channel_ids;
use jobwatch::errors::AppError;
use jobwatch::jsend::Status;
use jobwatch::notification::{
    all_provider_types, render_message, send_alert, validate_channel_config, AlertType,
    EmailConfig, EmailPlugin, GchatPlugin, ProviderConfig, ProviderType, SlackPlugin,
    WebhookConfig,
};
use jobwatch::settings::{Settings, SettingsCache, SettingsUpdateRequest};
use jobwatch::validations::{validate_email_list, validate_name, validate_url};

fn webhook(url: &str) -> WebhookConfig {
    WebhookConfig { webhook_url: url.to_string() }
}

fn email_config() -> EmailConfig {
    EmailConfig {
        host: "smtp.example.com".to_string(),
        port: 587,
        username: None,
        password: None,
        ignore_tls_verification: false,
        to_addresses: vec!["ops@example.com".to_string()],
        from_address: "watchdog@example.com".to_string(),
    }
}

#[test]
fn gchat_rejects_non_http_urls_before_anything_is_stored() {
    match GchatPlugin.validate_config(&webhook("ftp://x")) {
        Err(AppError::BadRequest(_)) => {}
        other => panic!("expected BadRequest, got {:?}", other),
    }
    assert!(GchatPlugin
        .validate_config(&webhook("https://chat.googleapis.com/v1/spaces/x"))
        .is_ok());
    // exactly eight characters is still accepted
    assert!(GchatPlugin.validate_config(&webhook("http://x")).is_ok());
    assert!(GchatPlugin
        .validate_config(&webhook("https://chat.googleapis.com/a b"))
        .is_err());
}

#[test]
fn slack_demands_its_hooks_host() {
    assert!(SlackPlugin
        .validate_config(&webhook("https://hooks.slack.com/services/T00/B00"))
        .is_ok());
    assert!(SlackPlugin.validate_config(&webhook("https://example.com/hook")).is_err());
}

#[test]
fn email_config_validation() {
    assert!(EmailPlugin.validate_config(&email_config()).is_ok());
    let mut short_host = email_config();
    short_host.host = "smt".to_string();
    assert!(EmailPlugin.validate_config(&short_host).is_err());
    let mut no_recipients = email_config();
    no_recipients.to_addresses = vec![];
    assert!(EmailPlugin.validate_config(&no_recipients).is_err());
    let mut bad_recipient = email_config();
    bad_recipient.to_addresses = vec!["not-an-email".to_string()];
    assert!(EmailPlugin.validate_config(&bad_recipient).is_err());
    let mut bad_sender = email_config();
    bad_sender.from_address = "nope".to_string();
    assert!(EmailPlugin.validate_config(&bad_sender).is_err());
}

#[test]
fn channel_validation_dispatches_on_the_provider_type() {
    let ok = validate_channel_config(
        &ProviderType::GchatWebhook,
        &ProviderConfig::Webhook(webhook("https://chat.googleapis.com/v1")),
    );
    assert!(ok.is_ok());
    // a mismatched shape is refused
    let mismatch = validate_channel_config(
        &ProviderType::EmailSmtp,
        &ProviderConfig::Webhook(webhook("https://chat.googleapis.com/v1")),
    );
    assert!(mismatch.is_err());
    assert_eq!(all_provider_types().len(), 3);
}

#[test]
fn rendered_messages_substitute_every_placeholder() {
    let (subject, body) = render_message(
        AlertType::Timeout,
        &"acme".to_string(),
        &"nightly".to_string(),
        Some("run-7".to_string()),
        "ingest",
        None,
    );
    assert_eq!(subject, "[acme]: [nightly] Dag Timeout Alert from Watchdog");
    assert_eq!(
        body,
        "Stage Timeout Alert\nApplication: acme\nJob Name: nightly\nStage Name: ingest\nRun Id: run-7"
    );
    let (subject_f, body_f) = render_message(
        AlertType::Failed,
        &"acme".to_string(),
        &"nightly".to_string(),
        None,
        "ingest",
        Some("boom".to_string()),
    );
    assert_eq!(subject_f, "[acme]: [nightly] Job Failed Alert from Watchdog");
    assert_eq!(
        body_f,
        "Stage Failed Alert\nApplication: acme\nJob Name: nightly\nStage Name: ingest\nRun Id: NA\nMessage: boom"
    );
    let (subject_e, body_e) = render_message(
        AlertType::Error,
        &"acme".to_string(),
        &"nightly".to_string(),
        None,
        "ingest",
        None,
    );
    assert_eq!(subject_e, "[watchdog]: [acme] [nightly] [ingest]: Runtime Error Occurred");
    assert_eq!(
        body_e,
        "Watchdog Error Alert\nApplication: acme\nJob Name: nightly\nStage Name: ingest\nRun Id: NA\nMessage: "
    );
}

#[test]
fn channel_lists_are_split_trimmed_and_filtered() {
    assert_eq!(
        parse_channel_ids(" a, ,b ,,c"),
        vec!["a".to_string(), "b".to_string(), "c".to_string()]
    );
    assert_eq!(parse_channel_ids(""), Vec::<String>::new());
    assert_eq!(parse_channel_ids(" , ,"), Vec::<String>::new());
    assert_eq!(parse_channel_ids("solo"), vec!["solo".to_string()]);
    assert_eq!(
        parse_channel_ids("chan1,chan2"),
        vec!["chan1".to_string(), "chan2".to_string()]
    );
}

#[test]
fn alert_logging_accepts_any_message() {
    send_alert("watchdog self-test alert");
}

#[test]
fn validators_match_their_rules() {
    assert!(validate_name("acme"));
    assert!(validate_name("job42"));
    assert!(!validate_name("abc"));
    assert!(!validate_name("has space"));
    assert!(!validate_name("thisnameismuchtoolongtobeacceptedhere"));
    assert!(validate_url("http://x.example"));
    assert!(!validate_url("ftp://x.example"));
    assert!(validate_url("http://x"));
    assert!(!validate_url("http://"));
    assert!(!validate_url("https://x. example"));
    assert!(validate_email_list(&vec!["a@b.com".to_string(), "c@d.org".to_string()]).is_ok());
    match validate_email_list(&vec!["a@b.com".to_string(), "nope".to_string()]) {
        Err(e) => assert_eq!(e.message(), "Invalid email format: nope"),
        Ok(()) => panic!("expected the invalid address to be rejected"),
    }
}

#[test]
fn jsend_status_maps_to_http_codes() {
    assert_eq!(Status::Success.http_code(), 200);
    assert_eq!(Status::Fail.http_code(), 400);
    assert_eq!(Status::Error.http_code(), 500);
    assert!(Status::Success.is_success());
    assert!(Status::Fail.is_fail());
    assert!(Status::Error.is_error());
}

fn settings_record() -> Settings {
    Settings {
        id: 1,
        success_retention_days: 7,
        failure_retention_days: 30,
        maintenance_mode: false,
        default_channels: "chan1".to_string(),
        error_channels: "err1,err2".to_string(),
        max_stage_duration_hours: 12,
    }
}

#[test]
fn settings_updates_replace_every_field_and_keep_the_id() {
    let update = SettingsUpdateRequest {
        success_retention_days: Some(3),
        failure_retention_days: Some(9),
        maintenance_mode: Some(true),
        default_channels: Some("d1".to_string()),
        error_channels: Some("e1".to_string()),
        max_stage_duration_hours: Some(6),
    };
    assert!(update.is_complete());
    let applied = update.apply(settings_record());
    assert_eq!(applied.id, 1);
    assert_eq!(applied.success_retention_days, 3);
    assert_eq!(applied.maintenance_mode, true);
    assert_eq!(applied.error_channels, "e1");
    let partial = SettingsUpdateRequest {
        success_retention_days: None,
        failure_retention_days: Some(9),
        maintenance_mode: Some(true),
        default_channels: Some("d1".to_string()),
        error_channels: Some("e1".to_string()),
        max_stage_duration_hours: Some(6),
    };
    assert!(!partial.is_complete());
}

#[test]
fn settings_cache_swaps_whole_snapshots() {
    let cache = SettingsCache::new(settings_record());
    let first = cache.read();
    assert_eq!(first.error_channels, "err1,err2");
    let mut next = settings_record();
    next.maintenance_mode = true;
    next.error_channels = "err9".to_string();
    cache.update(next);
    let second = cache.read();
    assert_eq!(second.maintenance_mode, true);
    assert_eq!(second.error_channels, "err9");
}
