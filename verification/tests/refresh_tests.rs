use crstop::client::{ClientError, Json, JsonNumber};
use crstop::refresh::{advance, Event, Request, Stage, Step};

fn obj(entries: Vec<(&str, Json)>) -> Json {
    Json::Object(entries.into_iter().map(|(k, v)| (k.to_string(), v)).collect())
}

fn text(s: &str) -> Json {
    Json::String(s.to_string())
}

fn num(n: u64) -> Json {
    Json::Number(JsonNumber { unsigned: Some(n), bits: (n as f64).to_bits() })
}

fn sent(step: &Step) -> &Request {
    match step {
        Step::Send(q) => q,
        other => panic!("expected a request, got {other:?}"),
    }
}

fn body(q: &Request) -> Vec<(&str, &str)> {
    q.body.iter().map(|(k, v)| (k.as_str(), v.as_str())).collect()
}

fn user_reply() -> Json {
    obj(vec![(
        "data",
        obj(vec![
            ("name", text("demo")),
            ("isActive", Json::Bool(true)),
            ("usage", obj(vec![("total", obj(vec![("requests", num(7))]))])),
        ]),
    )])
}

fn models_reply(names: &[&str]) -> Json {
    obj(vec![(
        "data",
        Json::Array(names.iter().map(|n| obj(vec![("model", text(n))])).collect()),
    )])
}

#[test]
fn a_cache_miss_fetches_and_keeps_the_id_then_asks_in_order() {
    let (stage, step) = advance(Stage::Start, false, "cr_key", Event::Begin);
    assert!(matches!(step, Step::ReadCachedId));

    let (stage, step) = advance(stage, false, "cr_key", Event::CachedId(None));
    let q = sent(&step);
    assert!(q.post);
    assert_eq!(q.path, "/apiStats/api/get-key-id");
    assert_eq!(body(q), vec![("apiKey", "cr_key")]);

    let reply = obj(vec![("data", obj(vec![("id", text("id-1"))]))]);
    let (stage, step) = advance(stage, false, "cr_key", Event::Reply(reply));
    assert!(matches!(&step, Step::SaveKeyId(id) if id == "id-1"));

    let (stage, step) = advance(stage, false, "cr_key", Event::Saved);
    let q = sent(&step);
    assert!(!q.post);
    assert_eq!(q.path, "/health");
    assert!(q.body.is_empty());

    let health = obj(vec![
        ("status", text("healthy")),
        ("components", obj(vec![("redis", obj(vec![("status", text("connected"))]))])),
    ]);
    let (stage, step) = advance(stage, false, "cr_key", Event::Reply(health));
    let q = sent(&step);
    assert_eq!(q.path, "/apiStats/api/user-stats");
    assert_eq!(body(q), vec![("apiId", "id-1")]);

    let (stage, step) = advance(stage, false, "cr_key", Event::Reply(user_reply()));
    let q = sent(&step);
    assert_eq!(q.path, "/apiStats/api/user-model-stats");
    assert_eq!(body(q), vec![("apiId", "id-1"), ("period", "daily")]);

    let (stage, step) = advance(stage, false, "cr_key", Event::Reply(models_reply(&["a", "b"])));
    assert_eq!(body(sent(&step)), vec![("apiId", "id-1"), ("period", "monthly")]);

    let (stage, step) = advance(stage, false, "cr_key", Event::Reply(models_reply(&["c"])));
    assert!(matches!(stage, Stage::Done));
    match step {
        Step::Complete(health, user, daily, monthly) => {
            assert_eq!(health.status, "healthy");
            assert_eq!(health.redis_status.as_deref(), Some("connected"));
            assert_eq!(user.name.as_deref(), Some("demo"));
            assert_eq!(user.total.requests, 7);
            assert_eq!(daily.iter().map(|m| m.model.as_str()).collect::<Vec<_>>(), vec!["a", "b"]);
            assert_eq!(monthly.len(), 1);
            assert_eq!(monthly[0].model, "c");
        }
        other => panic!("expected completion, got {other:?}"),
    }
}

#[test]
fn a_cached_id_skips_the_key_exchange() {
    let (stage, _) = advance(Stage::Start, false, "cr_key", Event::Begin);
    let (stage, step) = advance(stage, false, "cr_key", Event::CachedId(Some("cached".into())));
    assert_eq!(sent(&step).path, "/health");
    let (_, step) = advance(stage, false, "cr_key", Event::Reply(obj(vec![])));
    assert_eq!(body(sent(&step)), vec![("apiId", "cached")]);
}

#[test]
fn without_the_cache_the_id_is_neither_read_nor_kept() {
    let (stage, step) = advance(Stage::Start, true, "cr_key", Event::Begin);
    assert_eq!(sent(&step).path, "/apiStats/api/get-key-id");
    let reply = obj(vec![("data", obj(vec![("id", text("id-2"))]))]);
    let (stage, step) = advance(stage, true, "cr_key", Event::Reply(reply));
    assert_eq!(sent(&step).path, "/health");
    let (_, step) = advance(stage, true, "cr_key", Event::Reply(obj(vec![])));
    assert_eq!(body(sent(&step)), vec![("apiId", "id-2")]);
}

#[test]
fn a_refusal_ends_the_refresh_with_its_message() {
    let (stage, _) = advance(Stage::Start, true, "bad", Event::Begin);
    let refusal = obj(vec![("success", Json::Bool(false)), ("message", text("Invalid API key"))]);
    let (stage, step) = advance(stage, true, "bad", Event::Reply(refusal));
    assert!(matches!(stage, Stage::Done));
    assert!(matches!(step, Step::Fail(ClientError::RequestFailed(m)) if m == "Invalid API key"));
}

#[test]
fn replies_without_their_data_are_errors() {
    let (stage, _) = advance(Stage::Start, true, "k", Event::Begin);
    let (_, step) = advance(stage, true, "k", Event::Reply(obj(vec![])));
    assert!(matches!(step, Step::Fail(ClientError::MissingKeyId)));

    let (stage, _) = advance(Stage::ReadingCache, false, "k", Event::CachedId(Some("i".into())));
    let (stage, _) = advance(stage, false, "k", Event::Reply(obj(vec![])));
    let (_, step) = advance(stage, false, "k", Event::Reply(obj(vec![("data", obj(vec![]))])));
    assert!(matches!(step, Step::Fail(ClientError::MissingUsageTotal)));

    let (stage, _) = advance(Stage::ReadingCache, false, "k", Event::CachedId(Some("i".into())));
    let (stage, _) = advance(stage, false, "k", Event::Reply(obj(vec![])));
    let (stage, _) = advance(stage, false, "k", Event::Reply(user_reply()));
    let (_, step) = advance(stage, false, "k", Event::Reply(obj(vec![("data", text("x"))])));
    assert!(matches!(step, Step::Fail(ClientError::MissingModelData)));
}
