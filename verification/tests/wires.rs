//! What arrives from outside and what is sent there: signal-cli's lines, the
//! news from Seerr, the bell, and the configuration.

use signal_seerr::bell::{BellEvent, BellFailure, RingStep, Ringing, answered, event_body};
use signal_seerr::config::{
    Config, ConfigFault, FIVE, InsightConfig, MAX_STALL_AFTER_HOURS, ONE_DAY, Secrets, TEN_MINUTES,
    plain_http_fields, secret_files,
};
use signal_seerr::i18n::{Catalogue, Locale};
use signal_seerr::json::{Json, parse_json, write_json};
use signal_seerr::model::Aci;
use signal_seerr::moment::Span;
use signal_seerr::notices::Notices;
use signal_seerr::secret::Secret;
use signal_seerr::signal::rpc::{
    DataMessage, Envelope, Frame, Incoming, Notification, parse_line,
};
use signal_seerr::signal::{
    CallFailure, aci_from_user_status, call_line, name_given, rename_params, resolve_params,
    send_params,
};
use signal_seerr::startup::{SocketStep, insight_parts, socket_step, watch_settings};
use signal_seerr::state::{Entry, State};
use signal_seerr::table::Table;
use signal_seerr::webhook::{
    News, NewsEvent, NewsStep, Payload, RequestPart, WebhookState, loose_id,
};

// -- signal-cli ------------------------------------------------------------------

#[test]
fn a_known_username_yields_its_aci() {
    let answer = parse_json(
        r#"[{ "recipient": "u:achim.42", "number": null, "uuid": "aaaa-bbbb", "isRegistered": true }]"#,
    )
    .unwrap();
    assert_eq!(aci_from_user_status(&answer), Some(Aci("aaaa-bbbb".to_string())));
}

#[test]
fn an_unknown_username_is_none_not_an_error() {
    let answer = parse_json(
        r#"[{ "recipient": "u:nope.99", "number": null, "uuid": null, "isRegistered": false }]"#,
    )
    .unwrap();
    assert_eq!(aci_from_user_status(&answer), None);
}

#[test]
fn an_empty_answer_is_none() {
    assert_eq!(aci_from_user_status(&parse_json("[]").unwrap()), None);
}

#[test]
fn a_response_is_told_apart_from_a_notification() {
    let response = r#"{"jsonrpc":"2.0","id":"7","result":{"timestamp":1}}"#;
    assert!(matches!(parse_line(response).unwrap(), Frame::Response { id, .. } if id == "7"));

    let note = r#"{"jsonrpc":"2.0","method":"receive","params":{
        "envelope":{"sourceUuid":"aaaa-bbbb","dataMessage":{"message":"blade runner"}},
        "account":"+490000"}}"#;
    assert!(matches!(parse_line(note).unwrap(), Frame::Notification { .. }));
}

#[test]
fn an_error_response_carries_its_message() {
    let line =
        r#"{"jsonrpc":"2.0","id":"7","error":{"code":-32602,"message":"Unregistered user"}}"#;
    match parse_line(line).unwrap() {
        Frame::Response { id, result } => {
            assert_eq!(id, "7");
            assert!(result.unwrap_err().contains("Unregistered user"));
        }
        other => panic!("expected a response, got {other:?}"),
    }
}

/// A notification out of the parameters of a `receive`.
fn notification(params: &str) -> Notification {
    let line = format!(r#"{{"jsonrpc":"2.0","method":"receive","params":{params}}}"#);
    match parse_line(&line).unwrap() {
        Frame::Notification { note } => *note,
        other => panic!("expected a notification, got {other:?}"),
    }
}

#[test]
fn an_incoming_text_message_is_extracted() {
    let note = notification(
        r#"{"envelope":{"sourceUuid":"aaaa-bbbb","dataMessage":{"message":" blade runner "}},
            "account":"+490000"}"#,
    );
    let got = note.into_incoming().expect("a text message");
    assert_eq!(got.from.0, "aaaa-bbbb");
    assert_eq!(got.text, "blade runner", "text is trimmed");
}

#[test]
fn a_receipt_without_text_is_not_an_incoming_message() {
    let note = notification(
        r#"{"envelope":{"sourceUuid":"aaaa-bbbb","receiptMessage":{"isDelivery":true}},
            "account":"+490000"}"#,
    );
    assert!(note.into_incoming().is_none());
}

#[test]
fn a_message_with_only_whitespace_is_ignored() {
    let note = notification(
        r#"{"envelope":{"sourceUuid":"a","dataMessage":{"message":"   "}},"account":"+4900"}"#,
    );
    assert!(note.into_incoming().is_none());
}

#[test]
fn a_message_from_nobody_is_ignored() {
    let note = Notification {
        envelope: Envelope {
            source_uuid: None,
            data_message: Some(DataMessage { message: Some("hi".to_string()) }),
        },
        account: "+4900".to_string(),
    };
    assert_eq!(note.into_incoming(), None::<Incoming>);
}

#[test]
fn whatever_carries_the_number_of_a_call_is_its_answer() {
    let line = r#"{"id":"7","method":"receive","params":{
        "envelope":{"sourceUuid":"a","dataMessage":{"message":"hi"}},"account":"+4900"}}"#;
    assert!(matches!(parse_line(line), Some(Frame::Response { .. })));
}

#[test]
fn lines_that_say_nothing_known_are_dropped_and_no_json_is_no_line() {
    assert!(matches!(parse_line(r#"{"method":"sync"}"#), Some(Frame::Other)));
    assert!(matches!(
        parse_line(r#"{"method":"receive","params":{"envelope":{}}}"#),
        Some(Frame::Other)
    ));
    assert!(matches!(
        parse_line(r#"{"method":"receive","params":{"envelope":{"sourceUuid":7},"account":"+49"}}"#),
        Some(Frame::Other)
    ));
    assert!(parse_line("not json").is_none());
}

#[test]
fn an_answer_without_a_result_is_null_and_a_refusal_without_words_is_unknown() {
    match parse_line(r#"{"id":"1"}"#).unwrap() {
        Frame::Response { result, .. } => assert_eq!(write_json(&result.unwrap()), "null"),
        other => panic!("expected a response, got {other:?}"),
    }
    match parse_line(r#"{"id":"1","error":null}"#).unwrap() {
        Frame::Response { result, .. } => assert_eq!(result.unwrap_err(), "unknown error"),
        other => panic!("expected a response, got {other:?}"),
    }
}

#[test]
fn a_call_and_its_answer_carry_the_same_number() {
    let line = call_line(7, "getUserStatus", Json::Object(Vec::new()), "+490000");
    let request = parse_json(line.trim_end()).unwrap();
    assert_eq!(
        write_json(&request),
        r#"{"id":"7","jsonrpc":"2.0","method":"getUserStatus","params":{"account":"+490000"}}"#
    );
    match parse_line(r#"{"jsonrpc":"2.0","id":"7","result":{"timestamp":1234}}"#).unwrap() {
        Frame::Response { id, result } => {
            assert_eq!(id, "7");
            assert_eq!(write_json(&result.unwrap()), r#"{"timestamp":1234}"#);
        }
        other => panic!("expected a response, got {other:?}"),
    }
}

#[test]
fn the_number_in_signal_account_file_reaches_signal_cli() {
    let config = config();
    let mut texts: Vec<Option<String>> =
        secret_files(&config).iter().map(|_| Some(String::new())).collect();
    texts[0] = Some("+491234567890\n".to_string());
    let secrets = Secrets::read(&config, &texts).unwrap();

    let line = call_line(1, "getUserStatus", Json::Null, secrets.signal_account.expose());
    assert!(line.contains(r#""account":"+491234567890""#), "got: {line}");
    assert!(line.ends_with('\n'));
}

#[test]
fn the_account_takes_the_place_of_another_one() {
    let params = parse_json(r#"{"account":"+1","message":"x"}"#).unwrap();
    let line = call_line(1, "send", params, "+49");
    assert_eq!(
        line,
        "{\"id\":\"1\",\"jsonrpc\":\"2.0\",\"method\":\"send\",\
         \"params\":{\"account\":\"+49\",\"message\":\"x\"}}\n"
    );
}

#[test]
fn calls_carry_what_signal_cli_asks_for() {
    assert_eq!(write_json(&resolve_params("robert.42")), r#"{"username":["robert.42"]}"#);
    assert_eq!(write_json(&rename_params("bot")), r#"{"username":"bot"}"#);
    assert_eq!(
        write_json(&send_params(&Aci("aaaa".to_string()), "Grüße \"dir\"")),
        r#"{"message":"Grüße \"dir\"","recipient":["aaaa"]}"#
    );
    let answer = parse_json(r#"{"username":"bot.12"}"#).unwrap();
    assert_eq!(name_given(&answer, "bot"), "bot.12");
    assert_eq!(name_given(&Json::Null, "bot"), "bot");
}

#[test]
fn a_call_that_fails_says_why() {
    assert_eq!(CallFailure::ReaderStopped.message(), "the signal-cli reader stopped");
    assert_eq!(
        CallFailure::TimedOut { method: "send".to_string() }.message(),
        "signal-cli did not answer send within 30s"
    );
    assert_eq!(
        CallFailure::Rejected { method: "send".to_string(), reason: "no".to_string() }.message(),
        "signal-cli rejected send: no"
    );
}

// -- the news from Seerr -----------------------------------------------------------

fn entry(user: &str, aci: &str, locale: Locale) -> Entry {
    Entry {
        authentik_username: user.to_string(),
        signal_username: format!("{user}.1"),
        aci: Aci(aci.to_string()),
        greeted: true,
        locale,
        groups: vec!["Medien".to_string()],
    }
}

fn payload(event: &str, request_id: Option<i64>) -> Payload {
    Payload {
        notification_type: event.to_string(),
        subject: "Blade Runner 2049 (2017)".to_string(),
        request: Some(RequestPart { request_id }),
    }
}

/// What Seerr says about who made a wish.
fn requester_of(id: i64) -> Option<String> {
    match id {
        1849 => Some("robert".to_string()),
        // Somebody who never linked Signal.
        4242 => Some("konrad".to_string()),
        9001 => Some("silvia".to_string()),
        _ => None,
    }
}

/// Posts news, and returns the answer and what was sent.
fn post(
    token: Option<&str>,
    body: Option<Payload>,
    delivered: bool,
) -> (u16, Vec<(String, String)>) {
    let state = WebhookState {
        catalogue: Catalogue::load().unwrap(),
        token: Secret::from("t-o-k-e-n".to_string()),
        jellyfin_url: "https://jellyfin.example.org".to_string(),
    };
    let mut directory = State::default();
    directory.upsert(entry("robert", "aaaa", Locale::De));
    directory.upsert(entry("silvia", "eeee", Locale::En));
    let mut news = News::new();
    let mut sent = Vec::new();
    let mut body = Some(body);
    let mut event = NewsEvent::Posted { token: token.map(|t| t.to_string()) };
    loop {
        match news.step(&state, &directory, event) {
            NewsStep::Read => event = NewsEvent::Body(body.take().unwrap()),
            NewsStep::Ask { request_id } => event = NewsEvent::Requester(requester_of(request_id)),
            NewsStep::Send { to, text } => {
                if delivered {
                    sent.push((to.0, text));
                }
                event = NewsEvent::Sent;
            }
            NewsStep::Answer { status } => {
                if status == 401 {
                    assert!(body.is_some(), "the body was read before the token was checked");
                }
                return (status, sent);
            }
        }
    }
}

fn told(key: &str, locale: Locale) -> String {
    Catalogue::load().unwrap().text(
        locale,
        key,
        &[
            ("title", "Blade Runner 2049 (2017)"),
            ("url", "https://jellyfin.example.org"),
        ],
    )
}

#[test]
fn a_wrong_token_is_refused_before_anything_is_read() {
    let (status, sent) = post(Some("wrong"), Some(payload("MEDIA_AVAILABLE", Some(1849))), true);
    assert_eq!(status, 401);
    assert!(sent.is_empty());
    assert_eq!(post(None, None, true).0, 401, "no token is no token");
}

#[test]
fn media_available_reaches_the_person_who_asked() {
    let (status, sent) =
        post(Some("t-o-k-e-n"), Some(payload("MEDIA_AVAILABLE", Some(1849))), true);
    assert_eq!(status, 200);
    assert_eq!(sent.len(), 1);
    assert_eq!(sent[0].0, "aaaa");
    assert!(sent[0].1.contains("Blade Runner 2049"), "got: {}", sent[0].1);
    assert!(sent[0].1.contains("jellyfin"), "the link must be there: {}", sent[0].1);
}

#[test]
fn media_available_uses_the_requesters_locale_not_a_hardcoded_one() {
    let (status, sent) =
        post(Some("t-o-k-e-n"), Some(payload("MEDIA_AVAILABLE", Some(9001))), true);
    assert_eq!(status, 200);
    assert_eq!(sent.len(), 1);
    assert_eq!(sent[0].0, "eeee");
    assert_eq!(sent[0].1, told("available.ready", Locale::En));
}

#[test]
fn media_failed_uses_the_requesters_locale_too() {
    let (status, sent) = post(Some("t-o-k-e-n"), Some(payload("MEDIA_FAILED", Some(9001))), true);
    assert_eq!(status, 200);
    assert_eq!(sent.len(), 1);
    assert_eq!(sent[0].1, told("available.failed", Locale::En));
}

#[test]
fn an_unsubscribed_event_is_accepted_and_ignored() {
    let (status, sent) =
        post(Some("t-o-k-e-n"), Some(payload("MEDIA_PENDING", Some(1849))), true);
    assert_eq!(status, 200);
    assert!(sent.is_empty());
}

#[test]
fn a_wrong_token_with_an_unparseable_body_is_still_refused() {
    let (status, sent) = post(Some("wrong"), None, true);
    assert_eq!(status, 401);
    assert!(sent.is_empty());
}

#[test]
fn a_correct_token_with_an_unparseable_body_is_a_bad_request() {
    let (status, sent) = post(Some("t-o-k-e-n"), None, true);
    assert_eq!(status, 400);
    assert!(sent.is_empty());
}

#[test]
fn a_failed_delivery_still_answers_200() {
    let (status, _) =
        post(Some("t-o-k-e-n"), Some(payload("MEDIA_AVAILABLE", Some(1849))), false);
    assert_eq!(status, 200);
}

#[test]
fn a_requester_without_a_signal_name_is_accepted_and_dropped() {
    let (status, sent) =
        post(Some("t-o-k-e-n"), Some(payload("MEDIA_AVAILABLE", Some(4242))), true);
    assert_eq!(status, 200);
    assert!(sent.is_empty());
}

#[test]
fn seerrs_own_payload_carries_the_request_id_as_a_string() {
    let quoted = parse_json(r#""1849""#).unwrap();
    let (status, sent) = post(
        Some("t-o-k-e-n"),
        Some(payload("MEDIA_AVAILABLE", loose_id(&quoted))),
        true,
    );
    assert_eq!(status, 200, "a quoted request id is what Seerr actually sends");
    assert_eq!(sent.len(), 1, "the requester must be told the film is there");
}

#[test]
fn a_request_id_is_a_number_a_quoted_number_or_nothing() {
    let read = |text: &str| loose_id(&parse_json(text).unwrap());
    assert_eq!(read("1849"), Some(1849));
    assert_eq!(read("\" 1849 \""), Some(1849));
    assert_eq!(read("\"-3\""), Some(-3));
    assert_eq!(read("\"\""), None);
    assert_eq!(read("null"), None);
    assert_eq!(read("1.5"), None);
    assert_eq!(read("[1]"), None);
    let (status, sent) = post(Some("t-o-k-e-n"), Some(payload("MEDIA_AVAILABLE", None)), true);
    assert_eq!((status, sent.len()), (200, 0));
}

// -- the bell ------------------------------------------------------------------------

fn event() -> BellEvent {
    BellEvent {
        handle: "robert".to_string(),
        kind: "film_available",
        title: "Blade Runner 2049 (2017)".to_string(),
        link: Some("https://jellyfin.example.org".to_string()),
        source_key: "seerr:1849".to_string(),
    }
}

/// Offers an event until it is taken or given up; returns how often it was
/// offered, too.
fn ring(answers: &[Option<u16>]) -> (Result<(), BellFailure>, usize) {
    let mut ringing = Ringing::new();
    for (i, status) in answers.iter().enumerate() {
        if let RingStep::Over(result) = ringing.step(*status) {
            return (result, i + 1);
        }
    }
    panic!("offered too often");
}

#[test]
fn an_event_goes_to_treff_with_its_fields() {
    assert_eq!(
        write_json(&event_body(&event())),
        r#"{"handle":"robert","kind":"film_available","link":"https://jellyfin.example.org","source_key":"seerr:1849","title":"Blade Runner 2049 (2017)"}"#
    );
    let without_link = BellEvent { link: None, ..event() };
    assert!(!write_json(&event_body(&without_link)).contains("link"));
    assert_eq!(ring(&[Some(201)]), (Ok(()), 1));
}

#[test]
fn already_there_is_fine() {
    assert_eq!(ring(&[Some(200)]), (Ok(()), 1));
}

#[test]
fn a_refusal_is_an_error_after_one_more_try() {
    let refused = BellFailure::Refused { status: 401 };
    assert_eq!(ring(&[Some(401), Some(401)]), (Err(refused), 2));
    assert_eq!(ring(&[None, Some(201)]), (Ok(()), 2));
    assert_eq!(refused.message(), "treff answered 401");
    assert_eq!(answered(None).unwrap_err().message(), "treff could not be reached");
}

// -- the configuration ---------------------------------------------------------------

fn config() -> Config {
    Config {
        signal_socket: "/tmp/socket".to_string(),
        signal_account_file: "/dev/null".to_string(),
        authentik_url: "http://localhost:9000".to_string(),
        authentik_token_file: "/dev/null".to_string(),
        seerr_url: "http://localhost:5055".to_string(),
        seerr_key_file: "/dev/null".to_string(),
        webhook_listen: "127.0.0.1:0".to_string(),
        webhook_token_file: "/dev/null".to_string(),
        state_file: "/tmp/state.json".to_string(),
        poll_seconds: 30,
        media_group: "Medien".to_string(),
        jellyfin_url: "https://example.invalid".to_string(),
        settings_url: "https://example.invalid/account".to_string(),
        operator_name: "the operator".to_string(),
        quality_profiles: Vec::new(),
        insight: None,
    }
}

fn insight() -> InsightConfig {
    InsightConfig {
        radarr_url: "https://radarr.example.invalid".to_string(),
        radarr_key_file: "/dev/null".to_string(),
        sonarr_url: None,
        sonarr_key_file: None,
        poll_seconds: TEN_MINUTES,
        stall_after_hours: ONE_DAY,
        reason_search: false,
        max_reason_searches_per_day: FIVE,
        notices_file: "/tmp/notices.json".to_string(),
        profile_languages: Table::new(),
    }
}

fn with_insight(insight: InsightConfig) -> Config {
    Config { insight: Some(insight), ..config() }
}

fn load_error(config: Config) -> String {
    Config::load(config).unwrap_err().message()
}

#[test]
fn the_defaults_are_ten_minutes_a_day_and_five_searches() {
    let cfg = Config::load(with_insight(insight())).unwrap();
    let insight = cfg.insight.unwrap();
    assert_eq!(insight.radarr_url, "https://radarr.example.invalid");
    assert_eq!(insight.poll_seconds, 600);
    assert_eq!(insight.stall_after_hours, 24);
    assert_eq!(insight.max_reason_searches_per_day, 5);
}

#[test]
fn sonarr_url_without_key_file_is_a_load_error() {
    let err = load_error(with_insight(InsightConfig {
        sonarr_url: Some("https://sonarr.example.invalid".to_string()),
        ..insight()
    }));
    assert!(err.contains("sonarr_url"), "got: {err}");
    assert!(err.contains("sonarr_key_file"), "got: {err}");
}

#[test]
fn sonarr_key_file_without_url_is_a_load_error() {
    let err = load_error(with_insight(InsightConfig {
        sonarr_key_file: Some("/dev/null".to_string()),
        ..insight()
    }));
    assert!(err.contains("sonarr_url"), "got: {err}");
    assert!(err.contains("sonarr_key_file"), "got: {err}");
}

#[test]
fn insight_radarr_url_missing_scheme_is_rejected() {
    let err = load_error(with_insight(InsightConfig {
        radarr_url: "192.0.2.30:7878".to_string(),
        ..insight()
    }));
    assert!(err.contains("insight.radarr_url"), "got: {err}");
}

#[test]
fn insight_sonarr_url_missing_scheme_is_rejected() {
    let err = load_error(with_insight(InsightConfig {
        sonarr_url: Some("192.0.2.40:8989".to_string()),
        sonarr_key_file: Some("/dev/null".to_string()),
        ..insight()
    }));
    assert!(err.contains("insight.sonarr_url"), "got: {err}");
}

fn flagged(config: &Config) -> Vec<&'static str> {
    plain_http_fields(config).into_iter().map(|(field, _)| field).collect()
}

#[test]
fn plain_http_fields_names_insight_endpoints_too() {
    let cfg = Config {
        authentik_url: "https://a.example.invalid".to_string(),
        seerr_url: "https://b.example.invalid".to_string(),
        insight: Some(InsightConfig {
            radarr_url: "http://192.0.2.30:7878".to_string(),
            sonarr_url: Some("http://192.0.2.40:8989".to_string()),
            sonarr_key_file: Some("/dev/null".to_string()),
            ..insight()
        }),
        ..config()
    };
    assert_eq!(flagged(&cfg), vec!["insight.radarr_url", "insight.sonarr_url"]);
}

#[test]
fn a_url_missing_a_scheme_is_rejected_at_load() {
    let err = load_error(Config { seerr_url: "192.0.2.20:5055".to_string(), ..config() });
    assert!(err.contains("seerr_url"), "got: {err}");
    assert_eq!(err, "seerr_url must start with http:// or https://, got \"192.0.2.20:5055\"");
    let first = Config {
        seerr_url: "192.0.2.20:5055".to_string(),
        authentik_url: "a\"b".to_string(),
        ..config()
    };
    assert_eq!(
        load_error(first),
        "authentik_url must start with http:// or https://, got \"a\\\"b\""
    );
}

#[test]
fn an_http_url_is_accepted_not_rejected() {
    let cfg = Config::load(config()).expect("http:// must still load");
    assert!(cfg.seerr_url.starts_with("http://"));
}

#[test]
fn plain_http_fields_names_every_unencrypted_endpoint() {
    let cfg = Config {
        authentik_url: "http://192.0.2.10:9000".to_string(),
        seerr_url: "https://192.0.2.20:5055".to_string(),
        ..config()
    };
    assert_eq!(flagged(&cfg), vec!["authentik_url"]);
}

#[test]
fn plain_http_fields_is_empty_when_both_are_encrypted() {
    let cfg = Config {
        authentik_url: "https://a.example.invalid".to_string(),
        seerr_url: "https://b.example.invalid".to_string(),
        ..config()
    };
    assert!(flagged(&cfg).is_empty());
}

/// The credentials, with the given texts for the first files and nothing for
/// a path that does not exist.
fn secrets(config: &Config, texts: &[&str]) -> Result<Secrets, ConfigFault> {
    let texts: Vec<Option<String>> = secret_files(config)
        .iter()
        .enumerate()
        .map(|(i, path)| {
            if path.starts_with("/nonexistent") {
                None
            } else {
                Some(texts.get(i).unwrap_or(&"").to_string())
            }
        })
        .collect();
    Secrets::read(config, &texts)
}

#[test]
fn secrets_are_read_from_files_and_trimmed() {
    let s = secrets(&config(), &["+491234567890\n", "abc123\n", "def456", "ghi789\n\n"]).ok().unwrap();
    assert_eq!(s.signal_account.expose(), "+491234567890");
    assert_eq!(s.authentik_token.expose(), "abc123");
    assert_eq!(s.seerr_key.expose(), "def456");
    assert_eq!(s.webhook_token.expose(), "ghi789");
}

#[test]
fn a_missing_secret_file_names_itself() {
    let cfg = Config { authentik_token_file: "/nonexistent/token".to_string(), ..config() };
    let err = secrets(&cfg, &[]).err().unwrap().message();
    assert!(err.contains("/nonexistent/token"), "got: {err}");
}

#[test]
fn a_missing_signal_account_file_is_an_error_naming_the_path() {
    let cfg = Config {
        signal_account_file: "/nonexistent/signal-account".to_string(),
        ..config()
    };
    let err = secrets(&cfg, &[]).err().unwrap().message();
    assert_eq!(err, "cannot read secret /nonexistent/signal-account");
}

#[test]
fn a_config_naming_a_missing_signal_account_file_fails_at_startup() {
    let cfg = Config::load(Config {
        signal_account_file: "/nonexistent/signal-account".to_string(),
        ..config()
    })
    .expect("the config itself is accepted");
    let err = secrets(&cfg, &[]).err().unwrap().message();
    assert!(err.contains("/nonexistent/signal-account"), "got: {err}");
}

#[test]
fn without_insight_radarr_and_sonarr_keys_are_absent() {
    let s = secrets(&config(), &[]).ok().unwrap();
    assert!(s.radarr_key.is_none());
    assert!(s.sonarr_key.is_none());
}

#[test]
fn with_insight_the_radarr_key_is_read_and_sonarr_only_when_configured() {
    let s = secrets(&with_insight(insight()), &["radarr-secret\n"]).ok().unwrap();
    assert_eq!(s.radarr_key.unwrap().expose(), "radarr-secret");
    assert!(s.sonarr_key.is_none());
}

#[test]
fn with_insight_the_sonarr_key_is_read_too_when_configured() {
    let cfg = with_insight(InsightConfig {
        sonarr_url: Some("https://sonarr.example.invalid".to_string()),
        sonarr_key_file: Some("/dev/null".to_string()),
        ..insight()
    });
    let s = secrets(&cfg, &["radarr-secret", "sonarr-secret", "+49"]).ok().unwrap();
    assert_eq!(s.radarr_key.unwrap().expose(), "radarr-secret");
    assert_eq!(s.sonarr_key.unwrap().expose(), "sonarr-secret");
    assert_eq!(s.signal_account.expose(), "+49");
}

// -- the start -----------------------------------------------------------------------

fn watched() -> InsightConfig {
    let mut profile_languages: Table<String, Vec<String>> = Table::new();
    profile_languages.insert(
        "Dual Language, then German (1080p)".to_string(),
        vec!["German".to_string(), "English".to_string()],
    );
    InsightConfig {
        stall_after_hours: 36,
        max_reason_searches_per_day: 7,
        notices_file: "/var/lib/signal-seerr/notices.json".to_string(),
        profile_languages,
        ..insight()
    }
}

#[test]
fn stall_after_hours_becomes_that_many_hours() {
    let settings = watch_settings(watched()).unwrap();
    assert_eq!(settings.stall_after, Span::hours(36));
}

#[test]
fn a_stall_deadline_out_of_range_is_a_named_error_not_a_panic() {
    let with_hours = |hours: u64| {
        watch_settings(InsightConfig { stall_after_hours: hours, ..watched() })
    };
    let err = with_hours(MAX_STALL_AFTER_HOURS + 1).unwrap_err().message();
    assert!(err.contains("stall_after_hours"), "got: {err}");
    assert_eq!(
        err,
        "stall_after_hours = 8761 is out of range: it must be at most 8760 (a year)"
    );
    assert!(with_hours(u64::MAX).is_err());
    assert!(with_hours(MAX_STALL_AFTER_HOURS).is_ok());
}

#[test]
fn the_budget_the_file_and_the_languages_are_carried_over_unchanged() {
    let settings = watch_settings(watched()).unwrap();
    assert_eq!(settings.max_searches_per_day, 7);
    assert_eq!(settings.notices_file, "/var/lib/signal-seerr/notices.json");
    assert_eq!(
        settings.profile_languages.get(&"Dual Language, then German (1080p)".to_string()),
        Some(&vec!["German".to_string(), "English".to_string()])
    );
}

#[test]
fn a_record_that_cannot_be_read_switches_the_watcher_off() {
    let catalogue = || Catalogue::load().unwrap();
    let with = insight_parts(
        InsightConfig { reason_search: true, ..watched() },
        Some(Notices::default()),
        catalogue(),
    )
    .unwrap();
    assert!(with.notices.is_some());
    assert!(with.watcher.unwrap().search);

    let without = insight_parts(watched(), None, catalogue()).unwrap();
    assert!(without.notices.is_none());
    assert!(without.watcher.is_none());
}

#[test]
fn a_socket_that_appears_partway_through_is_used() {
    assert_eq!(socket_step(false, 0, 5_000), SocketStep::LookAgain { after: 500 });
    assert_eq!(socket_step(true, 500, 5_000), SocketStep::Go);
}

#[test]
fn a_socket_that_never_appears_is_given_up() {
    assert_eq!(socket_step(false, 0, 200), SocketStep::LookAgain { after: 500 });
    assert_eq!(socket_step(false, 500, 200), SocketStep::GiveUp);
}
