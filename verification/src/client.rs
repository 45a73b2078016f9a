use vstd::prelude::*;
use crate::amount::{dollars_of, finite_bits, lemma_dollars_of, Dollars};
use crate::model::{Health, Limits, ModelStat, UsageTotal, UserStats};
use crate::text::{decimal, push_decimal, str_eq, trim_end_char, views};

verus! {

/// A JSON number as this library reads it: its value where it is a non-negative
/// integer that fits in `u64`, and the bits of its value as a double.
#[derive(Debug, Clone, Copy, PartialEq, Eq)]
pub struct JsonNumber {
    pub unsigned: Option<u64>,
    pub bits: u64,
}

/// A JSON document. The entries of an object never repeat a key.
#[derive(Debug)]
pub enum Json {
    Null,
    Bool(bool),
    Number(JsonNumber),
    String(String),
    Array(Vec<Json>),
    Object(Vec<(String, Json)>),
}

/// The value under `key` among an object's entries.
pub open spec fn entries_lookup(entries: Seq<(String, Json)>, key: Seq<char>) -> Option<Json>
    decreases entries.len(),
{
    if entries.len() == 0 {
        None
    } else if entries[0].0@ == key {
        Some(entries[0].1)
    } else {
        entries_lookup(entries.drop_first(), key)
    }
}

/// The member `key` of an object (what `Value::get` gives); nothing for other values.
pub open spec fn json_get(v: Json, key: Seq<char>) -> Option<Json> {
    match v {
        Json::Object(entries) => entries_lookup(entries@, key),
        _ => None,
    }
}

/// The member `key` of an optional value.
pub open spec fn json_get_opt(v: Option<Json>, key: Seq<char>) -> Option<Json> {
    match v {
        Some(x) => json_get(x, key),
        None => None,
    }
}

/// The text of a string value.
pub open spec fn as_str_spec(v: Option<Json>) -> Option<String> {
    match v {
        Some(Json::String(s)) => Some(s),
        _ => None,
    }
}

/// The value of a boolean.
pub open spec fn as_bool_spec(v: Option<Json>) -> Option<bool> {
    match v {
        Some(Json::Bool(b)) => Some(b),
        _ => None,
    }
}

/// The value of a number that is a non-negative integer fitting in `u64`.
pub open spec fn as_u64_spec(v: Option<Json>) -> Option<u64> {
    match v {
        Some(Json::Number(n)) => n.unsigned,
        _ => None,
    }
}

/// The bits of an amount: those of a number's double (as `Value::as_f64` gives it),
/// zero (`0.0`) for anything else. A number whose bits are not finite, which no
/// JSON text gives, also reads as zero.
pub open spec fn amount_bits(v: Option<Json>) -> u64 {
    match v {
        Some(Json::Number(n)) => if finite_bits(n.bits) {
            n.bits
        } else {
            0
        },
        _ => 0,
    }
}

/// The count under `key`, or zero.
pub open spec fn u64_at_spec(v: Json, key: Seq<char>) -> u64 {
    match as_u64_spec(json_get(v, key)) {
        Some(n) => n,
        None => 0,
    }
}

/// The amount under `key`, or zero.
pub open spec fn dollars_at_spec(v: Json, key: Seq<char>) -> Dollars {
    dollars_of(amount_bits(json_get(v, key)))
}

/// Whether `r` refers to the value `s` holds (or both are absent).
pub open spec fn refers_to(r: Option<&Json>, s: Option<Json>) -> bool {
    match r {
        Some(x) => s == Some(*x),
        None => s is None,
    }
}

/// Why a response could not be used.
#[derive(Debug, Clone, PartialEq, Eq)]
pub enum ClientError {
    /// The reply from the URL was not JSON.
    InvalidJson(String),
    RequestFailed(String),
    MissingKeyId,
    MissingUserData,
    MissingModelData,
    MissingUsageTotal,
}

/// The text of a response error.
pub open spec fn client_error_text(e: ClientError) -> Seq<char> {
    match e {
        ClientError::InvalidJson(url) => "parse JSON from "@ + url@,
        ClientError::RequestFailed(m) => m@,
        ClientError::MissingKeyId => "get-key-id response missing data.id"@,
        ClientError::MissingUserData => "user-stats response missing data"@,
        ClientError::MissingModelData => "model-stats response missing data array"@,
        ClientError::MissingUsageTotal => "usage.total missing"@,
    }
}

impl ClientError {
    /// The text of the error, as the command line prints it.
    pub fn message(&self) -> (m: String)
        ensures
            m@ == client_error_text(*self),
    {
        match self {
            ClientError::InvalidJson(url) => {
                let mut m = "parse JSON from ".to_owned();
                m.append(url.as_str());
                m
            },
            ClientError::RequestFailed(m) => m.clone(),
            ClientError::MissingKeyId => "get-key-id response missing data.id".to_owned(),
            ClientError::MissingUserData => "user-stats response missing data".to_owned(),
            ClientError::MissingModelData => "model-stats response missing data array".to_owned(),
            ClientError::MissingUsageTotal => "usage.total missing".to_owned(),
        }
    }
}

/// The member `key` of `v`, if `v` is an object holding one.
pub fn get<'a>(v: &'a Json, key: &str) -> (r: Option<&'a Json>)
    ensures
        refers_to(r, json_get(*v, key@)),
{
    match v {
        Json::Object(entries) => {
            let mut i: usize = 0;
            assert(entries@.skip(0) =~= entries@);
            while i < entries.len()
                invariant
                    0 <= i <= entries@.len(),
                    *v == Json::Object(*entries),
                    entries_lookup(entries@, key@) == entries_lookup(entries@.skip(i as int), key@),
                decreases entries@.len() - i,
            {
                assert(entries@.skip(i as int).drop_first() =~= entries@.skip(i + 1));
                assert(entries@.skip(i as int)[0] == entries@[i as int]);
                if str_eq(entries[i].0.as_str(), key) {
                    return Some(&entries[i].1);
                }
                i = i + 1;
            }
            None
        },
        _ => None,
    }
}

fn get_opt<'a>(v: Option<&'a Json>, key: &str) -> (r: Option<&'a Json>)
    ensures
        match v {
            Some(x) => refers_to(r, json_get(*x, key@)),
            None => r is None,
        },
{
    match v {
        Some(x) => get(x, key),
        None => None,
    }
}

fn as_str(v: Option<&Json>) -> (r: Option<String>)
    ensures
        match v {
            Some(x) => r == as_str_spec(Some(*x)),
            None => r is None,
        },
{
    match v {
        Some(Json::String(s)) => Some(s.clone()),
        _ => None,
    }
}

fn as_bool(v: Option<&Json>) -> (r: Option<bool>)
    ensures
        match v {
            Some(x) => r == as_bool_spec(Some(*x)),
            None => r is None,
        },
{
    match v {
        Some(Json::Bool(b)) => Some(*b),
        _ => None,
    }
}

fn u64_at(v: &Json, key: &str) -> (n: u64)
    ensures
        n == u64_at_spec(*v, key@),
{
    match get(v, key) {
        Some(Json::Number(n)) => match n.unsigned {
            Some(u) => u,
            None => 0,
        },
        _ => 0,
    }
}

fn amount_of(v: Option<&Json>) -> (d: Dollars)
    ensures
        d@ == amount_bits(match v {
            Some(x) => Some(*x),
            None => None,
        }),
{
    match v {
        Some(Json::Number(n)) => match Dollars::from_bits(n.bits) {
            Some(d) => d,
            None => Dollars::zero(),
        },
        _ => Dollars::zero(),
    }
}

fn dollars_at(v: &Json, key: &str) -> (d: Dollars)
    ensures
        d == dollars_at_spec(*v, key@),
{
    let d = amount_of(get(v, key));
    proof {
        lemma_dollars_of(d, d@);
    }
    d
}

/// The member at `a`, then `b`, of `v` (what `Value::pointer("/a/b")` gives).
pub open spec fn json_path2(v: Json, a: Seq<char>, b: Seq<char>) -> Option<Json> {
    json_get_opt(json_get(v, a), b)
}

/// The health report of a `/health` response; a missing status reads `unknown`.
pub fn health_from_json(v: &Json) -> (h: Health)
    ensures
        h.status@ == match as_str_spec(json_get(*v, "status"@)) {
            Some(s) => s@,
            None => "unknown"@,
        },
        h.service == as_str_spec(json_get(*v, "service"@)),
        h.version == as_str_spec(json_get(*v, "version"@)),
        h.redis_status == as_str_spec(
            json_get_opt(json_path2(*v, "components"@, "redis"@), "status"@),
        ),
{
    let status = match as_str(get(v, "status")) {
        Some(s) => s,
        None => "unknown".to_owned(),
    };
    Health {
        status,
        service: as_str(get(v, "service")),
        version: as_str(get(v, "version")),
        redis_status: as_str(get_opt(get_opt(get(v, "components"), "redis"), "status")),
    }
}

/// The message of a failed request: `message`, else (where there is no `message`)
/// `error`, else a fixed text.
pub open spec fn failure_message_spec(v: Json) -> Seq<char> {
    let m = match json_get(v, "message"@) {
        Some(x) => Some(x),
        None => json_get(v, "error"@),
    };
    match as_str_spec(m) {
        Some(s) => s@,
        None => "CRS request failed"@,
    }
}

/// A response marked `"success": false` is an error carrying its message; any
/// other response is handed back as it is.
pub fn check_success(v: Json) -> (r: Result<Json, ClientError>)
    ensures
        as_bool_spec(json_get(v, "success"@)) == Some(false) ==> (r matches Err(ClientError::RequestFailed(m))
            && m@ == failure_message_spec(v)),
        as_bool_spec(json_get(v, "success"@)) != Some(false) ==> (r matches Ok(x) && x == v),
{
    let failed = match as_bool(get(&v, "success")) {
        Some(b) => !b,
        None => false,
    };
    if !failed {
        return Ok(v);
    }
    let m = match get(&v, "message") {
        Some(x) => Some(x),
        None => get(&v, "error"),
    };
    let text = match as_str(m) {
        Some(s) => s,
        None => "CRS request failed".to_owned(),
    };
    Err(ClientError::RequestFailed(text))
}

/// A `serde_json` value, carried through without looking inside.
#[verifier::external_type_specification]
#[verifier::external_body]
pub struct ExJsonValue(serde_json::Value);

/// The JSON document that `text` holds, if it holds one.
pub uninterp spec fn json_document(text: Seq<char>) -> Option<Json>;

/// Converts a `serde_json` value into the library's `Json`, one for one: each
/// number as its `u64` value (where it has one) and the bits of its `f64` value.
/// Nothing is claimed of it; it only serves `parse_json_text`.
#[verifier::external_body]
fn json_of_value(v: &serde_json::Value) -> Json {
    match v {
        serde_json::Value::Null => Json::Null,
        serde_json::Value::Bool(b) => Json::Bool(*b),
        serde_json::Value::Number(n) => Json::Number(
            JsonNumber { unsigned: n.as_u64(), bits: n.as_f64().map_or(0, |x| x.to_bits()) },
        ),
        serde_json::Value::String(t) => Json::String(t.clone()),
        serde_json::Value::Array(xs) => Json::Array(xs.iter().map(|x| json_of_value(x)).collect()),
        serde_json::Value::Object(m) => Json::Object(
            m.iter().map(|(k, x)| (k.clone(), json_of_value(x))).collect(),
        ),
    }
}

/// Calls `serde_json::from_str::<serde_json::Value>` and converts the value one
/// for one; its result is taken to be the document `text` holds (`None` where it
/// holds none), a function of `text` alone. Nothing else about it is claimed.
#[verifier::external_body]
fn parse_json_text(text: &str) -> (r: Option<Json>)
    ensures
        r == json_document(text@),
{
    serde_json::from_str::<serde_json::Value>(text).ok().map(|v| json_of_value(&v))
}

/// A reply as JSON, from what the parse of its text gave: the document, or an
/// error naming `url` where the text held none.
pub fn reply_document(parsed: Option<Json>, url: &str) -> (r: Result<Json, ClientError>)
    ensures
        match parsed {
            Some(v) => r == Ok::<Json, ClientError>(v),
            None => r matches Err(ClientError::InvalidJson(u)) && u@ == url@,
        },
{
    match parsed {
        Some(v) => Ok(v),
        None => Err(ClientError::InvalidJson(url.to_owned())),
    }
}

/// The reply text from `url` as JSON.
pub fn parse_json_reply(text: &str, url: &str) -> (r: Result<Json, ClientError>)
    ensures
        match json_document(text@) {
            Some(v) => r == Ok::<Json, ClientError>(v),
            None => r matches Err(ClientError::InvalidJson(u)) && u@ == url@,
        },
{
    reply_document(parse_json_text(text), url)
}

/// The reply text from `url` as JSON, refused where it is not JSON or is marked
/// `"success": false` (then with its message).
pub fn parse_success_json(text: &str, url: &str) -> (r: Result<Json, ClientError>)
    ensures
        match json_document(text@) {
            None => r matches Err(ClientError::InvalidJson(u)) && u@ == url@,
            Some(v) => if as_bool_spec(json_get(v, "success"@)) == Some(false) {
                r matches Err(ClientError::RequestFailed(m)) && m@ == failure_message_spec(v)
            } else {
                r == Ok::<Json, ClientError>(v)
            },
        },
{
    match parse_json_reply(text, url) {
        Ok(v) => check_success(v),
        Err(e) => Err(e),
    }
}

/// The API id in a `get-key-id` response: `data.id`.
pub fn api_id_from_response(v: &Json) -> (r: Result<String, ClientError>)
    ensures
        match as_str_spec(json_path2(*v, "data"@, "id"@)) {
            Some(id) => r == Ok::<String, ClientError>(id),
            None => r == Err::<String, ClientError>(ClientError::MissingKeyId),
        },
{
    match as_str(get_opt(get(v, "data"), "id")) {
        Some(id) => Ok(id),
        None => Err(ClientError::MissingKeyId),
    }
}

/// The list of strings that `text` holds as JSON, if it holds one.
pub uninterp spec fn json_string_list(text: Seq<char>) -> Option<Seq<Seq<char>>>;

/// Calls `serde_json::from_str::<Vec<String>>`; its result is taken to be the list
/// of strings that `text` holds as JSON (`None` where it holds none), a function of
/// `text` alone. Nothing else about it is claimed.
#[verifier::external_body]
fn parse_string_list(text: &str) -> (r: Option<Vec<String>>)
    ensures
        match r {
            Some(list) => json_string_list(text@) == Some(views(list@)),
            None => json_string_list(text@) is None,
        },
{
    serde_json::from_str::<Vec<String>>(text).ok()
}

/// The strings among the values, in order.
pub open spec fn strings_among(values: Seq<Json>) -> Seq<Seq<char>>
    decreases values.len(),
{
    if values.len() == 0 {
        Seq::empty()
    } else {
        let rest = strings_among(values.drop_last());
        match values.last() {
            Json::String(s) => rest.push(s@),
            _ => rest,
        }
    }
}

/// The permissions of a key: the strings of an array; or a string holding a JSON
/// list of strings; or a single permission named by the string; else none.
pub open spec fn permissions_spec(v: Option<Json>) -> Seq<Seq<char>> {
    match v {
        Some(Json::Array(xs)) => strings_among(xs@),
        Some(Json::String(s)) => match json_string_list(s@) {
            Some(list) => list,
            None => seq![s@],
        },
        _ => Seq::empty(),
    }
}

/// The permissions a string gives, from what it holds as a JSON list of strings
/// (`parsed`): that list, or else the string itself as the one permission.
pub fn permissions_from_text(text: &String, parsed: Option<Vec<String>>) -> (r: Vec<String>)
    ensures
        views(r@) == match parsed {
            Some(list) => views(list@),
            None => seq![text@],
        },
{
    match parsed {
        Some(list) => list,
        None => {
            let mut out: Vec<String> = Vec::new();
            out.push(text.clone());
            assert(views(out@) =~= seq![text@]);
            out
        },
    }
}

fn parse_permissions(v: Option<&Json>) -> (r: Vec<String>)
    ensures
        match v {
            Some(x) => views(r@) == permissions_spec(Some(*x)),
            None => views(r@) == Seq::<Seq<char>>::empty(),
        },
{
    match v {
        Some(Json::Array(xs)) => {
            let mut out: Vec<String> = Vec::new();
            let mut i: usize = 0;
            while i < xs.len()
                invariant
                    0 <= i <= xs@.len(),
                    views(out@) == strings_among(xs@.take(i as int)),
                decreases xs@.len() - i,
            {
                let ghost before = out@;
                match &xs[i] {
                    Json::String(s) => {
                        out.push(s.clone());
                        assert(views(out@) =~= views(before).push(s@));
                    },
                    _ => {},
                }
                assert(xs@.take(i + 1).drop_last() =~= xs@.take(i as int));
                i = i + 1;
            }
            assert(xs@.take(xs@.len() as int) =~= xs@);
            out
        },
        Some(Json::String(s)) => permissions_from_text(s, parse_string_list(s.as_str())),
        _ => {
            let out: Vec<String> = Vec::new();
            assert(views(out@) =~= Seq::<Seq<char>>::empty());
            out
        },
    }
}

/// The lifetime usage in a `usage.total` object.
pub open spec fn usage_total_spec(t: Json) -> UsageTotal {
    let all = u64_at_spec(t, "allTokens"@);
    let tokens = u64_at_spec(t, "tokens"@);
    UsageTotal {
        requests: u64_at_spec(t, "requests"@),
        input_tokens: u64_at_spec(t, "inputTokens"@),
        output_tokens: u64_at_spec(t, "outputTokens"@),
        cache_read_tokens: u64_at_spec(t, "cacheReadTokens"@),
        all_tokens: if all >= tokens { all } else { tokens },
        cost: dollars_at_spec(t, "cost"@),
        formatted_cost: as_str_spec(json_get(t, "formattedCost"@)),
    }
}

/// The limits in a `limits` object (zero where a field is missing).
pub open spec fn limits_spec(l: Json) -> Limits {
    Limits {
        daily_cost_limit: dollars_at_spec(l, "dailyCostLimit"@),
        total_cost_limit: dollars_at_spec(l, "totalCostLimit"@),
        current_daily_cost: dollars_at_spec(l, "currentDailyCost"@),
        current_total_cost: dollars_at_spec(l, "currentTotalCost"@),
        concurrency_limit: u64_at_spec(l, "concurrencyLimit"@),
        rate_limit_window: u64_at_spec(l, "rateLimitWindow"@),
        rate_limit_requests: u64_at_spec(l, "rateLimitRequests"@),
        rate_limit_cost: dollars_at_spec(l, "rateLimitCost"@),
    }
}

/// The `limits` object of user data, or `null` where there is none.
pub open spec fn limits_of(data: Json) -> Json {
    match json_get(data, "limits"@) {
        Some(l) => l,
        None => Json::Null,
    }
}

/// Whether `u` is what the user data `data` says, with usage taken from `total`.
pub open spec fn user_stats_match(data: Json, total: Json, u: UserStats) -> bool {
    &&& u.name == as_str_spec(json_get(data, "name"@))
    &&& u.is_active == match as_bool_spec(json_get(data, "isActive"@)) {
        Some(b) => b,
        None => false,
    }
    &&& u.is_activated == match as_bool_spec(json_get(data, "isActivated"@)) {
        Some(b) => b,
        None => true,
    }
    &&& u.expires_at == match as_str_spec(json_get(data, "expiresAt"@)) {
        Some(s) => if s@.len() > 0 {
            Some(s)
        } else {
            None
        },
        None => None,
    }
    &&& views(u.permissions@) == permissions_spec(json_get(data, "permissions"@))
    &&& u.total == usage_total_spec(total)
    &&& u.limits == limits_spec(limits_of(data))
}

/// The count under `key` of the `limits` object of user data, zero where it is missing.
pub open spec fn limit_count(data: Json, key: Seq<char>) -> u64 {
    match as_u64_spec(json_path2(data, "limits"@, key)) {
        Some(n) => n,
        None => 0,
    }
}

/// Each field of the parsed limits is read from its own member of `limits`: an
/// amount has the bits of the number there (zero where it is missing), a count is
/// the integer there (zero where it is missing).
pub proof fn law_limits_read_their_own_members(data: Json, total: Json, u: UserStats)
    requires
        user_stats_match(data, total, u),
    ensures
        u.limits.daily_cost_limit@ == amount_bits(json_path2(data, "limits"@, "dailyCostLimit"@)),
        u.limits.total_cost_limit@ == amount_bits(json_path2(data, "limits"@, "totalCostLimit"@)),
        u.limits.current_daily_cost@ == amount_bits(json_path2(data, "limits"@, "currentDailyCost"@)),
        u.limits.current_total_cost@ == amount_bits(json_path2(data, "limits"@, "currentTotalCost"@)),
        u.limits.rate_limit_cost@ == amount_bits(json_path2(data, "limits"@, "rateLimitCost"@)),
        u.limits.concurrency_limit == limit_count(data, "concurrencyLimit"@),
        u.limits.rate_limit_window == limit_count(data, "rateLimitWindow"@),
        u.limits.rate_limit_requests == limit_count(data, "rateLimitRequests"@),
{
    let l = limits_of(data);
    assert(forall|k: Seq<char>| json_get(l, k) == #[trigger] json_path2(data, "limits"@, k));
    lemma_dollars_of(u.limits.daily_cost_limit, amount_bits(json_get(l, "dailyCostLimit"@)));
    lemma_dollars_of(u.limits.total_cost_limit, amount_bits(json_get(l, "totalCostLimit"@)));
    lemma_dollars_of(u.limits.current_daily_cost, amount_bits(json_get(l, "currentDailyCost"@)));
    lemma_dollars_of(u.limits.current_total_cost, amount_bits(json_get(l, "currentTotalCost"@)));
    lemma_dollars_of(u.limits.rate_limit_cost, amount_bits(json_get(l, "rateLimitCost"@)));
}

fn usage_total(t: &Json) -> (u: UsageTotal)
    ensures
        u == usage_total_spec(*t),
{
    let all = u64_at(t, "allTokens");
    let tokens = u64_at(t, "tokens");
    UsageTotal {
        requests: u64_at(t, "requests"),
        input_tokens: u64_at(t, "inputTokens"),
        output_tokens: u64_at(t, "outputTokens"),
        cache_read_tokens: u64_at(t, "cacheReadTokens"),
        all_tokens: if all >= tokens { all } else { tokens },
        cost: dollars_at(t, "cost"),
        formatted_cost: as_str(get(t, "formattedCost")),
    }
}

fn limits_from(l: &Json) -> (r: Limits)
    ensures
        r == limits_spec(*l),
{
    Limits {
        daily_cost_limit: dollars_at(l, "dailyCostLimit"),
        total_cost_limit: dollars_at(l, "totalCostLimit"),
        current_daily_cost: dollars_at(l, "currentDailyCost"),
        current_total_cost: dollars_at(l, "currentTotalCost"),
        concurrency_limit: u64_at(l, "concurrencyLimit"),
        rate_limit_window: u64_at(l, "rateLimitWindow"),
        rate_limit_requests: u64_at(l, "rateLimitRequests"),
        rate_limit_cost: dollars_at(l, "rateLimitCost"),
    }
}

/// The statistics of a key from its user data; an error where `usage.total` is missing.
pub fn parse_user_stats(data: &Json) -> (r: Result<UserStats, ClientError>)
    ensures
        match json_path2(*data, "usage"@, "total"@) {
            Some(total) => r matches Ok(u) && user_stats_match(*data, total, u),
            None => r matches Err(ClientError::MissingUsageTotal),
        },
{
    let total = match get_opt(get(data, "usage"), "total") {
        Some(t) => t,
        None => return Err(ClientError::MissingUsageTotal),
    };
    let limits = match get(data, "limits") {
        Some(l) => limits_from(l),
        None => limits_from(&Json::Null),
    };
    let expires_at = match as_str(get(data, "expiresAt")) {
        Some(s) => if s.as_str().is_empty() {
            None
        } else {
            Some(s)
        },
        None => None,
    };
    Ok(UserStats {
        name: as_str(get(data, "name")),
        is_active: match as_bool(get(data, "isActive")) {
            Some(b) => b,
            None => false,
        },
        is_activated: match as_bool(get(data, "isActivated")) {
            Some(b) => b,
            None => true,
        },
        expires_at,
        permissions: parse_permissions(get(data, "permissions")),
        total: usage_total(total),
        limits,
    })
}

/// The statistics in a `user-stats` response: its `data`, read by `parse_user_stats`.
pub fn user_stats_from_response(v: &Json) -> (r: Result<UserStats, ClientError>)
    ensures
        match json_get(*v, "data"@) {
            Some(data) => match json_path2(data, "usage"@, "total"@) {
                Some(total) => r matches Ok(u) && user_stats_match(data, total, u),
                None => r matches Err(ClientError::MissingUsageTotal),
            },
            None => r matches Err(ClientError::MissingUserData),
        },
{
    match get(v, "data") {
        Some(data) => parse_user_stats(data),
        None => Err(ClientError::MissingUserData),
    }
}

/// Whether `m` is what the row `v` says; a row without a model name reads `-`.
pub open spec fn model_stat_match(v: Json, m: ModelStat) -> bool {
    &&& m.model@ == match as_str_spec(json_get(v, "model"@)) {
        Some(name) => name@,
        None => "-"@,
    }
    &&& m.requests == u64_at_spec(v, "requests"@)
    &&& m.input_tokens == u64_at_spec(v, "inputTokens"@)
    &&& m.output_tokens == u64_at_spec(v, "outputTokens"@)
    &&& m.cache_read_tokens == u64_at_spec(v, "cacheReadTokens"@)
    &&& m.all_tokens == u64_at_spec(v, "allTokens"@)
    &&& m.cost@ == amount_bits(json_path2(v, "costs"@, "total"@))
    &&& m.formatted_cost == as_str_spec(json_path2(v, "formatted"@, "total"@))
}

/// One row of model statistics.
pub fn parse_model_stat(v: &Json) -> (m: ModelStat)
    ensures
        model_stat_match(*v, m),
{
    let model = match as_str(get(v, "model")) {
        Some(s) => s,
        None => "-".to_owned(),
    };
    let cost = amount_of(get_opt(get(v, "costs"), "total"));
    ModelStat {
        model,
        requests: u64_at(v, "requests"),
        input_tokens: u64_at(v, "inputTokens"),
        output_tokens: u64_at(v, "outputTokens"),
        cache_read_tokens: u64_at(v, "cacheReadTokens"),
        all_tokens: u64_at(v, "allTokens"),
        cost,
        formatted_cost: as_str(get_opt(get(v, "formatted"), "total")),
    }
}

/// The rows of a `user-model-stats` response: each element of its `data` array.
pub fn model_stats_from_response(v: &Json) -> (r: Result<Vec<ModelStat>, ClientError>)
    ensures
        match json_get(*v, "data"@) {
            Some(Json::Array(rows)) => r matches Ok(out) && out@.len() == rows@.len() && forall|i: int|
                0 <= i < rows@.len() ==> model_stat_match(rows@[i], #[trigger] out@[i]),
            _ => r matches Err(ClientError::MissingModelData),
        },
{
    let rows = match get(v, "data") {
        Some(Json::Array(rows)) => rows,
        _ => return Err(ClientError::MissingModelData),
    };
    let mut out: Vec<ModelStat> = Vec::new();
    let mut i: usize = 0;
    while i < rows.len()
        invariant
            0 <= i <= rows@.len(),
            out@.len() == i,
            forall|k: int| 0 <= k < i ==> model_stat_match(rows@[k], #[trigger] out@[k]),
        decreases rows@.len() - i,
    {
        out.push(parse_model_stat(&rows[i]));
        i = i + 1;
    }
    Ok(out)
}

/// A client of one relay service.
#[derive(Debug, Clone)]
pub struct CrsClient {
    root_url: String,
}

impl CrsClient {
    /// The root URL the client talks to.
    pub closed spec fn root(&self) -> Seq<char> {
        self.root_url@
    }

    /// A client of the relay at `root_url`, trailing slashes removed.
    pub fn new(root_url: String) -> (c: Self)
        ensures
            c.root() == trim_end_char(root_url@, '/'),
    {
        let chars = crate::text::chars_of(root_url.as_str());
        let e = crate::text::trim_end_char_index(&chars, 0, chars.len(), '/');
        assert(chars@.subrange(0, chars@.len() as int) =~= chars@);
        CrsClient { root_url: crate::text::string_of(&chars, 0, e) }
    }

    /// The URL of an endpoint path (`/health`, `/apiStats/...`).
    pub fn url(&self, path: &str) -> (u: String)
        ensures
            u@ == self.root() + path@,
    {
        let mut u = self.root_url.clone();
        u.append(path);
        u
    }
}

/// When a snapshot was fetched, as shown: `unix:` and the seconds since the epoch.
pub fn unix_label(secs: u64) -> (s: String)
    ensures
        s@ == "unix:"@ + decimal(secs as nat),
{
    let mut s = "unix:".to_owned();
    push_decimal(&mut s, secs);
    s
}

} // verus!
