use crstop::client::{
    api_id_from_response, check_success, health_from_json, model_stats_from_response,
    parse_json_reply, parse_model_stat, parse_success_json, parse_user_stats, permissions_from_text, unix_label, user_stats_from_response, ClientError, CrsClient, Json,
    JsonNumber,
};
use crstop::amount::Dollars;

fn usd(cents: i64) -> Dollars {
    let sign = if cents < 0 { "-" } else { "" };
    let value: f64 = format!("{sign}{}.{:02}", cents.abs() / 100, cents.abs() % 100).parse().unwrap();
    Dollars::from_bits(value.to_bits()).unwrap()
}


fn s(text: &str) -> Json {
    Json::String(text.to_string())
}

fn uint(n: u64) -> Json {
    Json::Number(JsonNumber { unsigned: Some(n), bits: (n as f64).to_bits() })
}

fn amount(cents: i64) -> Json {
    let sign = if cents < 0 { "-" } else { "" };

    let dollars: f64 = format!("{sign}{}.{:02}", cents.abs() / 100, cents.abs() % 100).parse().unwrap();
    Json::Number(JsonNumber { unsigned: None, bits: dollars.to_bits() })
}

fn obj(entries: Vec<(&str, Json)>) -> Json {
    Json::Object(entries.into_iter().map(|(k, v)| (k.to_string(), v)).collect())
}

#[test]
fn health_reads_status_version_and_redis() {
    let v = obj(vec![
        ("status", s("healthy")),
        ("service", s("relay-service")),
        ("version", s("1.1.303")),
        ("components", obj(vec![("redis", obj(vec![("status", s("healthy"))]))])),
    ]);
    let h = health_from_json(&v);
    assert_eq!(h.status, "healthy");
    assert_eq!(h.service.as_deref(), Some("relay-service"));
    assert_eq!(h.version.as_deref(), Some("1.1.303"));
    assert_eq!(h.redis_status.as_deref(), Some("healthy"));

    let h = health_from_json(&obj(vec![("status", uint(3))]));
    assert_eq!(h.status, "unknown");
    assert_eq!(h.redis_status, None);
}

#[test]
fn failed_requests_carry_the_service_message() {
    let v = obj(vec![("success", Json::Bool(false)), ("message", s("bad key"))]);
    assert_eq!(check_success(v).unwrap_err(), ClientError::RequestFailed("bad key".into()));
    let v = obj(vec![("error", s("denied")), ("success", Json::Bool(false))]);
    assert_eq!(check_success(v).unwrap_err().message(), "denied");
    let v = obj(vec![("success", Json::Bool(false)), ("message", uint(1)), ("error", s("x"))]);
    assert_eq!(check_success(v).unwrap_err().message(), "CRS request failed");
    let v = obj(vec![("success", Json::Bool(true))]);
    assert!(check_success(v).is_ok());
    assert!(check_success(Json::Null).is_ok());
}

#[test]
fn api_id_is_data_id() {
    let v = obj(vec![("data", obj(vec![("id", s("key-123"))]))]);
    assert_eq!(api_id_from_response(&v).unwrap(), "key-123");
    let err = api_id_from_response(&obj(vec![("data", obj(vec![]))])).unwrap_err();
    assert_eq!(err, ClientError::MissingKeyId);
    assert_eq!(err.message(), "get-key-id response missing data.id");
}

#[test]
fn user_stats_read_totals_limits_and_defaults() {
    let data = obj(vec![
        ("name", s("demo")),
        ("isActive", Json::Bool(true)),
        ("expiresAt", s("")),
        ("permissions", Json::Array(vec![s("openai"), uint(7), s("mistral")])),
        (
            "usage",
            obj(vec![(
                "total",
                obj(vec![
                    ("requests", uint(10)),
                    ("inputTokens", uint(20)),
                    ("outputTokens", uint(30)),
                    ("cacheReadTokens", uint(40)),
                    ("allTokens", uint(90)),
                    ("tokens", uint(95)),
                    ("cost", amount(125)),
                    ("formattedCost", s("$1.25")),
                ]),
            )]),
        ),
        ("limits", obj(vec![("dailyCostLimit", amount(1_000)), ("concurrencyLimit", uint(4))])),
    ]);
    let u = parse_user_stats(&data).unwrap();
    assert_eq!(u.name.as_deref(), Some("demo"));
    assert!(u.is_active);
    assert!(u.is_activated);
    assert_eq!(u.expires_at, None);
    assert_eq!(u.permissions, vec!["openai".to_string(), "mistral".to_string()]);
    assert_eq!(u.total.requests, 10);
    assert_eq!(u.total.all_tokens, 95);
    assert_eq!(u.total.cost, usd(125));
    assert_eq!(u.total.formatted_cost.as_deref(), Some("$1.25"));
    assert_eq!(u.limits.daily_cost_limit, usd(1_000));
    assert_eq!(u.limits.total_cost_limit, usd(0));
    assert_eq!(u.limits.concurrency_limit, 4);

    let missing = obj(vec![("usage", obj(vec![]))]);
    assert_eq!(parse_user_stats(&missing).unwrap_err().message(), "usage.total missing");
    assert_eq!(
        user_stats_from_response(&obj(vec![])).unwrap_err().message(),
        "user-stats response missing data"
    );
}

#[test]
fn permissions_given_as_text_are_read_as_json() {
    let with = |p: Json| obj(vec![("usage", obj(vec![("total", obj(vec![]))])), ("permissions", p)]);
    let u = parse_user_stats(&with(s("[\"openai\",\"mistral\"]"))).unwrap();
    assert_eq!(u.permissions, vec!["openai".to_string(), "mistral".to_string()]);
    let u = parse_user_stats(&with(s("openai"))).unwrap();
    assert_eq!(u.permissions, vec!["openai".to_string()]);
    let u = parse_user_stats(&with(Json::Bool(true))).unwrap();
    assert!(u.permissions.is_empty());
    assert!(!u.is_active);
    assert!(u.is_activated);
}

#[test]
fn permissions_from_text_fall_back_to_the_text() {
    let text = "openai".to_string();
    assert_eq!(permissions_from_text(&text, None), vec!["openai".to_string()]);
    let parsed = Some(vec!["a".to_string(), "b".to_string()]);
    assert_eq!(permissions_from_text(&text, parsed), vec!["a".to_string(), "b".to_string()]);
    assert!(permissions_from_text(&text, Some(vec![])).is_empty());
}

#[test]
fn model_stats_read_each_row() {
    let row = obj(vec![
        ("model", s("gpt-5.5")),
        ("requests", uint(3)),
        ("allTokens", uint(300)),
        ("costs", obj(vec![("total", amount(42))])),
        ("formatted", obj(vec![("total", s("$0.42"))])),
    ]);
    let m = parse_model_stat(&row);
    assert_eq!(m.model, "gpt-5.5");
    assert_eq!(m.requests, 3);
    assert_eq!(m.all_tokens, 300);
    assert_eq!(m.cost, usd(42));
    assert_eq!(m.formatted_cost.as_deref(), Some("$0.42"));
    let bare = parse_model_stat(&obj(vec![]));
    assert_eq!(bare.model, "-");
    assert_eq!(bare.cost, usd(0));

    let v = obj(vec![("data", Json::Array(vec![row, obj(vec![])]))]);
    let rows = model_stats_from_response(&v).unwrap();
    assert_eq!(rows.len(), 2);
    assert_eq!(rows[1].model, "-");
    let err = model_stats_from_response(&obj(vec![("data", obj(vec![]))])).unwrap_err();
    assert_eq!(err.message(), "model-stats response missing data array");
}

#[test]
fn client_urls_drop_trailing_slashes() {
    let c = CrsClient::new("http://relay:6868//".to_string());
    assert_eq!(c.url("/health"), "http://relay:6868/health");
    assert_eq!(unix_label(1_700_000_000), "unix:1700000000");
    assert_eq!(unix_label(0), "unix:0");
}

#[test]
fn reply_texts_are_parsed_and_checked() {
    let url = "http://relay.invalid/health";
    let v = parse_success_json(r#"{"status":"healthy","n":12,"cost":1.25}"#, url).unwrap();
    assert_eq!(health_from_json(&v).status, "healthy");
    match &v {
        Json::Object(entries) => {
            assert_eq!(entries.len(), 3);
            let member = |key: &str| &entries.iter().find(|(k, _)| k == key).unwrap().1;
            assert!(matches!(
                member("n"),
                Json::Number(JsonNumber { unsigned: Some(12), bits }) if f64::from_bits(*bits) == 12.0
            ));
            assert!(matches!(
                member("cost"),
                Json::Number(JsonNumber { unsigned: None, bits }) if f64::from_bits(*bits) == 1.25
            ));
        }
        other => panic!("expected an object, got {other:?}"),
    }
    let refused = parse_success_json(r#"{"success":false,"error":"quota"}"#, url).unwrap_err();
    assert_eq!(refused, ClientError::RequestFailed("quota".into()));
    let broken = parse_success_json("<html>", url).unwrap_err();
    assert_eq!(broken.message(), "parse JSON from http://relay.invalid/health");
    assert!(parse_json_reply(r#"{"success":false}"#, url).is_ok());
}

#[test]
fn amounts_keep_the_double_the_reply_holds() {
    let text = r#"{"data":{"usage":{"total":{"cost":8.996,"requests":3}},
        "limits":{"dailyCostLimit":10,"currentDailyCost":0.005,"totalCostLimit":-0.015}}}"#;
    let v = parse_success_json(text, "u").unwrap();
    let u = user_stats_from_response(&v).unwrap();
    assert_eq!(f64::from_bits(u.total.cost.bits()), 8.996);
    assert_eq!(u.total.requests, 3);
    assert_eq!(f64::from_bits(u.limits.daily_cost_limit.bits()), 10.0);
    assert_eq!(f64::from_bits(u.limits.current_daily_cost.bits()), 0.005);
    assert_eq!(f64::from_bits(u.limits.total_cost_limit.bits()), -0.015);
    assert_eq!(u.limits.rate_limit_cost, usd(0));
    let huge = parse_success_json(r#"{"data":{"usage":{"total":{"cost":1e300}}}}"#, "u").unwrap();
    let u = user_stats_from_response(&huge).unwrap();
    assert_eq!(f64::from_bits(u.total.cost.bits()), 1e300);
}
