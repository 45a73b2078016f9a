//! One refresh of the snapshot, as a conversation with the relay: which request
//! comes next, what is read from each reply, and when the API id cache is used.
//! Sending the requests and touching the cache file is left to the caller, which
//! hands each outcome back as an event.
use vstd::prelude::*;
use crate::client::{
    api_id_from_response, as_bool_spec, as_str_spec, check_success, failure_message_spec, health_from_json,
    json_get, json_get_opt, json_path2, model_stat_match, model_stats_from_response,
    user_stats_from_response, user_stats_match, ClientError, Json,
};
use crate::model::{Health, ModelStat, UserStats};

verus! {

/// A request to the relay: `POST` with a JSON object of string members, or a
/// `GET` without a body.
#[derive(Debug)]
pub struct Request {
    pub post: bool,
    pub path: String,
    pub body: Vec<(String, String)>,
}

/// A request as method, path and body members.
pub open spec fn request_view(q: Request) -> (bool, Seq<char>, Seq<(Seq<char>, Seq<char>)>) {
    (q.post, q.path@, q.body@.map_values(|p: (String, String)| (p.0@, p.1@)))
}

/// The health check.
pub open spec fn health_request_spec() -> (bool, Seq<char>, Seq<(Seq<char>, Seq<char>)>) {
    (false, "/health"@, Seq::empty())
}

/// The request that trades an API key for its id.
pub open spec fn key_id_request_spec(api_key: Seq<char>) -> (bool, Seq<char>, Seq<(Seq<char>, Seq<char>)>) {
    (true, "/apiStats/api/get-key-id"@, seq![("apiKey"@, api_key)])
}

/// The request for the statistics of a key.
pub open spec fn user_stats_request_spec(api_id: Seq<char>) -> (bool, Seq<char>, Seq<(Seq<char>, Seq<char>)>) {
    (true, "/apiStats/api/user-stats"@, seq![("apiId"@, api_id)])
}

/// The request for the statistics of a key by model over `period`.
pub open spec fn model_stats_request_spec(api_id: Seq<char>, period: Seq<char>) -> (
    bool,
    Seq<char>,
    Seq<(Seq<char>, Seq<char>)>,
) {
    (true, "/apiStats/api/user-model-stats"@, seq![("apiId"@, api_id), ("period"@, period)])
}

/// The health check.
pub fn health_request() -> (q: Request)
    ensures
        request_view(q) == health_request_spec(),
{
    let q = Request { post: false, path: "/health".to_owned(), body: Vec::new() };
    assert(request_view(q).2 =~= Seq::<(Seq<char>, Seq<char>)>::empty());
    q
}

/// The request that trades an API key for its id.
pub fn key_id_request(api_key: &str) -> (q: Request)
    ensures
        request_view(q) == key_id_request_spec(api_key@),
{
    let mut body: Vec<(String, String)> = Vec::new();
    body.push(("apiKey".to_owned(), api_key.to_owned()));
    let q = Request { post: true, path: "/apiStats/api/get-key-id".to_owned(), body };
    assert(request_view(q).2 =~= seq![("apiKey"@, api_key@)]);
    q
}

/// The request for the statistics of a key.
pub fn user_stats_request(api_id: &str) -> (q: Request)
    ensures
        request_view(q) == user_stats_request_spec(api_id@),
{
    let mut body: Vec<(String, String)> = Vec::new();
    body.push(("apiId".to_owned(), api_id.to_owned()));
    let q = Request { post: true, path: "/apiStats/api/user-stats".to_owned(), body };
    assert(request_view(q).2 =~= seq![("apiId"@, api_id@)]);
    q
}

/// The request for the statistics of a key by model over `period`.
pub fn model_stats_request(api_id: &str, period: &str) -> (q: Request)
    ensures
        request_view(q) == model_stats_request_spec(api_id@, period@),
{
    let mut body: Vec<(String, String)> = Vec::new();
    body.push(("apiId".to_owned(), api_id.to_owned()));
    body.push(("period".to_owned(), period.to_owned()));
    let q = Request { post: true, path: "/apiStats/api/user-model-stats".to_owned(), body };
    assert(request_view(q).2 =~= seq![("apiId"@, api_id@), ("period"@, period@)]);
    q
}

/// Where a refresh stands, with what it has gathered so far.
#[derive(Debug)]
pub enum Stage {
    Start,
    ReadingCache,
    FetchingKeyId,
    SavingKeyId(String),
    FetchingHealth(String),
    FetchingUser(String, Health),
    FetchingDaily(String, Health, UserStats),
    FetchingMonthly(String, Health, UserStats, Vec<ModelStat>),
    Done,
}

/// What the caller reports back.
#[derive(Debug)]
pub enum Event {
    /// The refresh starts.
    Begin,
    /// The API id the cache holds for this relay and key, if any.
    CachedId(Option<String>),
    /// The JSON the relay answered with.
    Reply(Json),
    /// The API id was written to the cache (or writing it failed, which is ignored).
    Saved,
}

/// What the caller is to do next.
#[derive(Debug)]
pub enum Step {
    ReadCachedId,
    Send(Request),
    SaveKeyId(String),
    Complete(Health, UserStats, Vec<ModelStat>, Vec<ModelStat>),
    Fail(ClientError),
}

/// Whether `event` is what `stage` waits for.
pub open spec fn awaits(stage: Stage, event: Event) -> bool {
    match stage {
        Stage::Start => event is Begin,
        Stage::ReadingCache => event is CachedId,
        Stage::SavingKeyId(_) => event is Saved,
        Stage::Done => false,
        _ => event is Reply,
    }
}

/// Whether `step` sends the request `q`.
pub open spec fn sends(step: Step, q: (bool, Seq<char>, Seq<(Seq<char>, Seq<char>)>)) -> bool {
    step matches Step::Send(r) && request_view(r) == q
}

/// Whether `q` is one of the read-only queries a refresh makes: the health check
/// and the usage statistics of the key (no model request is ever sent).
pub open spec fn is_usage_query(q: Request) -> bool {
    let path = request_view(q).1;
    ||| path == "/health"@
    ||| path == "/apiStats/api/get-key-id"@
    ||| path == "/apiStats/api/user-stats"@
    ||| path == "/apiStats/api/user-model-stats"@
}

/// Whether the relay refused with `v` (`"success": false`).
pub open spec fn refused(v: Json) -> bool {
    as_bool_spec(json_get(v, "success"@)) == Some(false)
}

/// Whether `r` ends the refresh with the relay's refusal `v`.
pub open spec fn fails_with_refusal(r: (Stage, Step), v: Json) -> bool {
    r.0 is Done && (r.1 matches Step::Fail(ClientError::RequestFailed(m)) && m@ == failure_message_spec(v))
}

/// Whether `r` ends the refresh with the error `e`.
pub open spec fn fails_with(r: (Stage, Step), e: ClientError) -> bool {
    r.0 is Done && r.1 == Step::Fail(e)
}

/// Whether `h` is the health report that the reply `v` gives.
pub open spec fn health_match(v: Json, h: Health) -> bool {
    &&& h.status@ == match as_str_spec(json_get(v, "status"@)) {
        Some(s) => s@,
        None => "unknown"@,
    }
    &&& h.service == as_str_spec(json_get(v, "service"@))
    &&& h.version == as_str_spec(json_get(v, "version"@))
    &&& h.redis_status == as_str_spec(json_get_opt(json_path2(v, "components"@, "redis"@), "status"@))
}

/// What follows the reply `v` to the key-id request.
pub open spec fn after_key_id(v: Json, no_cache: bool, r: (Stage, Step)) -> bool {
    match as_str_spec(json_path2(v, "data"@, "id"@)) {
        Some(id) => if no_cache {
            r.0 == Stage::FetchingHealth(id) && sends(r.1, health_request_spec())
        } else {
            r.0 == Stage::SavingKeyId(id) && r.1 == Step::SaveKeyId(id)
        },
        None => fails_with(r, ClientError::MissingKeyId),
    }
}

/// What follows the reply `v` to the request for the key's statistics.
pub open spec fn after_user(v: Json, id: String, h: Health, r: (Stage, Step)) -> bool {
    match json_get(v, "data"@) {
        Some(data) => match json_path2(data, "usage"@, "total"@) {
            Some(total) => r.0 matches Stage::FetchingDaily(i, h2, u) && i == id && h2 == h
                && user_stats_match(data, total, u) && sends(r.1, model_stats_request_spec(id@, "daily"@)),
            None => fails_with(r, ClientError::MissingUsageTotal),
        },
        None => fails_with(r, ClientError::MissingUserData),
    }
}

/// Whether `out` holds the rows of the model statistics in `rows`, in order.
pub open spec fn rows_match(rows: Seq<Json>, out: Seq<ModelStat>) -> bool {
    out.len() == rows.len() && forall|i: int| 0 <= i < rows.len() ==> model_stat_match(rows[i], #[trigger] out[i])
}

/// What follows the reply `v` to the request for the day's statistics by model.
pub open spec fn after_daily(v: Json, id: String, h: Health, u: UserStats, r: (Stage, Step)) -> bool {
    match json_get(v, "data"@) {
        Some(Json::Array(rows)) => r.0 matches Stage::FetchingMonthly(i, h2, u2, d) && i == id && h2 == h
            && u2 == u && rows_match(rows@, d@) && sends(r.1, model_stats_request_spec(id@, "monthly"@)),
        _ => fails_with(r, ClientError::MissingModelData),
    }
}

/// What follows the reply `v` to the request for the month's statistics by model.
pub open spec fn after_monthly(
    v: Json,
    h: Health,
    u: UserStats,
    d: Vec<ModelStat>,
    r: (Stage, Step),
) -> bool {
    match json_get(v, "data"@) {
        Some(Json::Array(rows)) => r.0 is Done && (r.1 matches Step::Complete(h2, u2, d2, m) && h2 == h
            && u2 == u && d2 == d && rows_match(rows@, m@)),
        _ => fails_with(r, ClientError::MissingModelData),
    }
}

/// The next stage of a refresh and the next thing to do, given what just happened.
///
/// A refresh first finds the API id: from the cache unless `no_cache` is set, else
/// by trading `api_key` for it (and then, unless `no_cache` is set, keeping it in
/// the cache). It then asks for the relay's health, the key's statistics, and the
/// key's statistics by model for the day and for the month, in that order, and
/// completes with all four. A refusal from the relay, or a reply without what it
/// should hold, ends it with an error.
pub fn advance(stage: Stage, no_cache: bool, api_key: &str, event: Event) -> (r: (Stage, Step))
    requires
        awaits(stage, event),
    ensures
        r.1 matches Step::Send(q) ==> is_usage_query(q),
        match (stage, event) {
            (Stage::Start, _) => if no_cache {
                r.0 is FetchingKeyId && sends(r.1, key_id_request_spec(api_key@))
            } else {
                r.0 is ReadingCache && r.1 is ReadCachedId
            },
            (Stage::ReadingCache, Event::CachedId(Some(id))) => r.0 == Stage::FetchingHealth(id) && sends(
                r.1,
                health_request_spec(),
            ),
            (Stage::ReadingCache, _) => r.0 is FetchingKeyId && sends(r.1, key_id_request_spec(api_key@)),
            (Stage::SavingKeyId(id), _) => r.0 == Stage::FetchingHealth(id) && sends(r.1, health_request_spec()),
            (_, Event::Reply(v)) => if refused(v) {
                fails_with_refusal(r, v)
            } else {
                match stage {
                    Stage::FetchingKeyId => after_key_id(v, no_cache, r),
                    Stage::FetchingHealth(id) => r.0 matches Stage::FetchingUser(i, h) && i == id && health_match(v, h)
                        && sends(r.1, user_stats_request_spec(id@)),
                    Stage::FetchingUser(id, h) => after_user(v, id, h, r),
                    Stage::FetchingDaily(id, h, u) => after_daily(v, id, h, u, r),
                    Stage::FetchingMonthly(_, h, u, d) => after_monthly(v, h, u, d, r),
                    _ => true,
                }
            },
            _ => true,
        },
{
    match stage {
        Stage::Start => {
            if no_cache {
                (Stage::FetchingKeyId, Step::Send(key_id_request(api_key)))
            } else {
                (Stage::ReadingCache, Step::ReadCachedId)
            }
        },
        Stage::ReadingCache => match event {
            Event::CachedId(Some(id)) => (Stage::FetchingHealth(id), Step::Send(health_request())),
            _ => (Stage::FetchingKeyId, Step::Send(key_id_request(api_key))),
        },
        Stage::SavingKeyId(id) => (Stage::FetchingHealth(id), Step::Send(health_request())),
        Stage::Done => (Stage::Done, Step::Fail(ClientError::MissingKeyId)),
        _ => {
            let reply = match event {
                Event::Reply(v) => v,
                _ => Json::Null,
            };
            let v = match check_success(reply) {
                Ok(v) => v,
                Err(e) => return (Stage::Done, Step::Fail(e)),
            };
            match stage {
                Stage::FetchingKeyId => match api_id_from_response(&v) {
                    Ok(id) => if no_cache {
                        (Stage::FetchingHealth(id), Step::Send(health_request()))
                    } else {
                        let kept = id.clone();
                        (Stage::SavingKeyId(id), Step::SaveKeyId(kept))
                    },
                    Err(e) => (Stage::Done, Step::Fail(e)),
                },
                Stage::FetchingHealth(id) => {
                    let h = health_from_json(&v);
                    let q = user_stats_request(id.as_str());
                    (Stage::FetchingUser(id, h), Step::Send(q))
                },
                Stage::FetchingUser(id, h) => match user_stats_from_response(&v) {
                    Ok(u) => {
                        let q = model_stats_request(id.as_str(), "daily");
                        (Stage::FetchingDaily(id, h, u), Step::Send(q))
                    },
                    Err(e) => (Stage::Done, Step::Fail(e)),
                },
                Stage::FetchingDaily(id, h, u) => match model_stats_from_response(&v) {
                    Ok(d) => {
                        let q = model_stats_request(id.as_str(), "monthly");
                        (Stage::FetchingMonthly(id, h, u, d), Step::Send(q))
                    },
                    Err(e) => (Stage::Done, Step::Fail(e)),
                },
                Stage::FetchingMonthly(_, h, u, d) => match model_stats_from_response(&v) {
                    Ok(m) => (Stage::Done, Step::Complete(h, u, d, m)),
                    Err(e) => (Stage::Done, Step::Fail(e)),
                },
                _ => (Stage::Done, Step::Fail(ClientError::MissingKeyId)),
            }
        },
    }
}

} // verus!
