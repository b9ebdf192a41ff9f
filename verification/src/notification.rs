use vstd::prelude::*;

use std::io::Write;

use crate::errors::AppError;
use crate::validations::{
    email_ok, is_valid_email, starts_with_ascii, valid_email_list_spec, valid_url_spec,
    validate_email_list, validate_url,
};

verus! {

/// The delivery mechanisms the dispatcher knows.
#[derive(Debug, Clone, Copy, PartialEq, Eq, Hash, Structural)]
pub enum ProviderType {
    GchatWebhook,
    EmailSmtp,
    SlackWebhook,
}

/// The kinds of alert the watchdog raises.
#[derive(Debug, Clone, Copy, PartialEq, Eq, Structural)]
pub enum AlertType {
    Error,
    Timeout,
    Failed,
}

/// Configuration of a webhook channel.
#[derive(Debug)]
pub struct WebhookConfig {
    pub webhook_url: String,
}

/// Configuration of an SMTP channel.
#[derive(Debug)]
pub struct EmailConfig {
    pub host: String,
    pub port: u16,
    pub username: Option<String>,
    pub password: Option<String>,
    pub ignore_tls_verification: bool,
    pub to_addresses: Vec<String>,
    pub from_address: String,
}

/// A channel's provider-specific configuration.
#[derive(Debug)]
pub enum ProviderConfig {
    Webhook(WebhookConfig),
    Email(EmailConfig),
}

/// A named notification destination.
#[derive(Debug)]
pub struct Channel {
    pub id: String,
    pub name: String,
    pub provider_type: ProviderType,
    pub configuration: ProviderConfig,
}

/// Every provider type the registry holds.
pub fn all_provider_types() -> (r: Vec<ProviderType>)
    ensures
        r@ == seq![
            ProviderType::GchatWebhook,
            ProviderType::EmailSmtp,
            ProviderType::SlackWebhook,
        ],
{
    let mut v: Vec<ProviderType> = Vec::new();
    v.push(ProviderType::GchatWebhook);
    v.push(ProviderType::EmailSmtp);
    v.push(ProviderType::SlackWebhook);
    proof {
        assert(v@ =~= seq![
            ProviderType::GchatWebhook,
            ProviderType::EmailSmtp,
            ProviderType::SlackWebhook,
        ]);
    }
    v
}

/// A valid SMTP channel configuration: a plausible host, at least one
/// recipient, and well-formed addresses throughout.
pub open spec fn valid_email_config_spec(c: EmailConfig) -> bool {
    &&& c.host@.len() >= 4
    &&& c.to_addresses@.len() >= 1
    &&& valid_email_list_spec(c.to_addresses@)
    &&& email_ok(c.from_address@)
}

/// The Google-chat webhook provider: validation of its channel
/// configuration.  Delivery itself is transport work outside this crate.
pub struct GchatPlugin;

impl GchatPlugin {
    pub fn provider_type(&self) -> (r: ProviderType)
        ensures
            r == ProviderType::GchatWebhook,
    {
        ProviderType::GchatWebhook
    }

    /// Accepts exactly the configurations whose URL is a well-formed
    /// webhook URL.
    pub fn validate_config(&self, config: &WebhookConfig) -> (r: Result<(), AppError>)
        ensures
            (r is Ok) <==> valid_url_spec(config.webhook_url@),
            r is Err ==> r->Err_0 is BadRequest,
    {
        if validate_url(config.webhook_url.as_str()) {
            Ok(())
        } else {
            Err(AppError::BadRequest(String::from_str("invalid config provided: webhook_url")))
        }
    }
}

/// The Slack webhook provider: its URLs must point at Slack's hook host.
pub struct SlackPlugin;

/// A valid Slack webhook URL: the Slack hooks prefix.
pub open spec fn valid_slack_url_spec(s: Seq<char>) -> bool {
    s.len() >= 23 && s.subrange(0, 23) == "https://hooks.slack.com"@
}

impl SlackPlugin {
    pub fn provider_type(&self) -> (r: ProviderType)
        ensures
            r == ProviderType::SlackWebhook,
    {
        ProviderType::SlackWebhook
    }

    /// Accepts exactly the configurations whose URL carries the Slack
    /// hooks prefix.
    pub fn validate_config(&self, config: &WebhookConfig) -> (r: Result<(), AppError>)
        ensures
            (r is Ok) <==> valid_slack_url_spec(config.webhook_url@),
            r is Err ==> r->Err_0 is BadRequest,
    {
        proof {
            reveal_strlit("https://hooks.slack.com");
        }
        if starts_with_ascii(config.webhook_url.as_str(), "https://hooks.slack.com") {
            Ok(())
        } else {
            Err(
                AppError::BadRequest(
                    String::from_str(
                        "Missing or invalid 'webhook_url'. Must start with slack hooks URL.",
                    ),
                ),
            )
        }
    }
}

/// The SMTP provider: validation of its channel configuration.
pub struct EmailPlugin;

impl EmailPlugin {
    pub fn provider_type(&self) -> (r: ProviderType)
        ensures
            r == ProviderType::EmailSmtp,
    {
        ProviderType::EmailSmtp
    }

    /// Accepts exactly the configurations that satisfy
    /// `valid_email_config_spec`.
    pub fn validate_config(&self, config: &EmailConfig) -> (r: Result<(), AppError>)
        ensures
            (r is Ok) <==> valid_email_config_spec(*config),
            r is Err ==> r->Err_0 is BadRequest,
    {
        if config.host.as_str().unicode_len() < 4 {
            return Err(
                AppError::BadRequest(
                    String::from_str("host must be at least 4 characters long"),
                ),
            );
        }
        if config.to_addresses.len() == 0 {
            return Err(
                AppError::BadRequest(
                    String::from_str("to_addresses must contain at least one address"),
                ),
            );
        }
        match validate_email_list(&config.to_addresses) {
            Err(e) => {
                return Err(e);
            },
            Ok(()) => {},
        }
        if !is_valid_email(config.from_address.as_str()) {
            return Err(AppError::BadRequest(String::from_str("from_address must be an email")));
        }
        Ok(())
    }
}

/// Whether a channel configuration is accepted for a provider type: the
/// matching plugin's check, and a shape that fits the provider at all.
pub open spec fn valid_channel_config_spec(t: ProviderType, c: ProviderConfig) -> bool {
    match (t, c) {
        (ProviderType::GchatWebhook, ProviderConfig::Webhook(w)) => valid_url_spec(w.webhook_url@),
        (ProviderType::SlackWebhook, ProviderConfig::Webhook(w)) => valid_slack_url_spec(
            w.webhook_url@,
        ),
        (ProviderType::EmailSmtp, ProviderConfig::Email(e)) => valid_email_config_spec(e),
        _ => false,
    }
}

/// Validates a channel configuration before it is persisted, dispatching
/// on the provider type as the plugin registry does.
pub fn validate_channel_config(provider_type: &ProviderType, config: &ProviderConfig) -> (r: Result<
    (),
    AppError,
>)
    ensures
        (r is Ok) <==> valid_channel_config_spec(*provider_type, *config),
        r is Err ==> r->Err_0 is BadRequest,
{
    match (provider_type, config) {
        (ProviderType::GchatWebhook, ProviderConfig::Webhook(w)) => GchatPlugin.validate_config(w),
        (ProviderType::SlackWebhook, ProviderConfig::Webhook(w)) => SlackPlugin.validate_config(w),
        (ProviderType::EmailSmtp, ProviderConfig::Email(e)) => EmailPlugin.validate_config(e),
        _ => Err(
            AppError::BadRequest(
                String::from_str("configuration does not fit the provider type"),
            ),
        ),
    }
}

/// The run id as rendered: the id itself, or `NA`.
pub open spec fn run_id_view(run_id_opt: Option<String>) -> Seq<char> {
    match run_id_opt {
        Some(id) => id@,
        None => "NA"@,
    }
}

/// The message as rendered: the message itself, or nothing.
pub open spec fn message_view(message_opt: Option<String>) -> Seq<char> {
    match message_opt {
        Some(m) => m@,
        None => Seq::<char>::empty(),
    }
}

/// Renders the subject and body of an alert.  The semantic template is the
/// same for every provider; placeholders are substituted with the
/// application, job, stage, run id (`NA` when absent) and message (empty
/// when absent).
pub fn render_message(
    alert_type: AlertType,
    app_name: &String,
    job_name: &String,
    run_id_opt: Option<String>,
    stage: &str,
    message_opt: Option<String>,
) -> (r: (String, String))
    ensures
        alert_type == AlertType::Error ==> r.0@ == "[watchdog]: ["@ + app_name@ + "] ["@ + job_name@
            + "] ["@ + stage@ + "]: Runtime Error Occurred"@,
        alert_type == AlertType::Timeout ==> r.0@ == "["@ + app_name@ + "]: ["@ + job_name@
            + "] Dag Timeout Alert from Watchdog"@,
        alert_type == AlertType::Failed ==> r.0@ == "["@ + app_name@ + "]: ["@ + job_name@
            + "] Job Failed Alert from Watchdog"@,
        alert_type == AlertType::Error ==> r.1@ == "Watchdog Error Alert\nApplication: "@
            + app_name@ + "\nJob Name: "@ + job_name@ + "\nStage Name: "@ + stage@ + "\nRun Id: "@
            + run_id_view(run_id_opt) + "\nMessage: "@ + message_view(message_opt),
        alert_type == AlertType::Timeout ==> r.1@ == "Stage Timeout Alert\nApplication: "@
            + app_name@ + "\nJob Name: "@ + job_name@ + "\nStage Name: "@ + stage@ + "\nRun Id: "@
            + run_id_view(run_id_opt),
        alert_type == AlertType::Failed ==> r.1@ == "Stage Failed Alert\nApplication: "@ + app_name@
            + "\nJob Name: "@ + job_name@ + "\nStage Name: "@ + stage@ + "\nRun Id: "@
            + run_id_view(run_id_opt) + "\nMessage: "@ + message_view(message_opt),
{
    let subject: String;
    match alert_type {
        AlertType::Error => {
            let mut s = String::from_str("[watchdog]: [");
            s.append(app_name.as_str());
            s.append("] [");
            s.append(job_name.as_str());
            s.append("] [");
            s.append(stage);
            s.append("]: Runtime Error Occurred");
            subject = s;
        },
        AlertType::Timeout => {
            let mut s = String::from_str("[");
            s.append(app_name.as_str());
            s.append("]: [");
            s.append(job_name.as_str());
            s.append("] Dag Timeout Alert from Watchdog");
            subject = s;
        },
        AlertType::Failed => {
            let mut s = String::from_str("[");
            s.append(app_name.as_str());
            s.append("]: [");
            s.append(job_name.as_str());
            s.append("] Job Failed Alert from Watchdog");
            subject = s;
        },
    }
    let mut body: String;
    match alert_type {
        AlertType::Error => {
            body = String::from_str("Watchdog Error Alert\nApplication: ");
        },
        AlertType::Timeout => {
            body = String::from_str("Stage Timeout Alert\nApplication: ");
        },
        AlertType::Failed => {
            body = String::from_str("Stage Failed Alert\nApplication: ");
        },
    }
    body.append(app_name.as_str());
    body.append("\nJob Name: ");
    body.append(job_name.as_str());
    body.append("\nStage Name: ");
    body.append(stage);
    body.append("\nRun Id: ");
    match &run_id_opt {
        Some(id) => body.append(id.as_str()),
        None => body.append("NA"),
    }
    if alert_type == AlertType::Error || alert_type == AlertType::Failed {
        body.append("\nMessage: ");
        match &message_opt {
            Some(m) => body.append(m.as_str()),
            None => {},
        }
    }
    (subject, body)
}

/// Relies on `std::io`: writes an alert line to the error stream.
#[verifier::external_body]
pub fn send_alert(message: &str) {
    let _ = writeln!(&mut std::io::stderr(), "{}", message);
}

} // verus!
