use vstd::prelude::*;
use vstd::string::*;
use crate::amount::{
    cost_is_near, cost_is_over, cost_near, cost_over, dollars, dollars_spec, is_positive,
    is_positive_exec, Dollars,
};
use crate::model::{Snapshot, StatusResult};
use crate::text::{join, join_strings, str_eq, views};

verus! {

/// Whether the key may use the `openai` models.
pub open spec fn has_openai(permissions: Seq<String>) -> bool {
    exists|i: int| 0 <= i < permissions.len() && permissions[i]@ == "openai"@
}

/// Whether something in the snapshot makes the status `FAIL`.
pub open spec fn status_fails(s: Snapshot) -> bool {
    ||| s.health.status@ != "healthy"@
    ||| (s.health.redis_status matches Some(r) && r@ != "healthy"@)
    ||| !s.user.is_active
    ||| !s.user.is_activated
    ||| cost_over(s.user.limits.current_daily_cost@, s.user.limits.daily_cost_limit@)
    ||| cost_over(s.user.limits.current_total_cost@, s.user.limits.total_cost_limit@)
}

/// Whether something in the snapshot deserves a warning.
pub open spec fn status_warns(s: Snapshot) -> bool {
    ||| !has_openai(s.user.permissions@)
    ||| cost_near(s.user.limits.current_daily_cost@, s.user.limits.daily_cost_limit@)
    ||| cost_near(s.user.limits.current_total_cost@, s.user.limits.total_cost_limit@)
    ||| s.last_error is Some
}

/// The overall level: the worst of what the snapshot shows.
pub open spec fn level_spec(s: Snapshot) -> Seq<char> {
    if status_fails(s) {
        "FAIL"@
    } else if status_warns(s) {
        "WARN"@
    } else {
        "OK"@
    }
}

/// The status-log line of a cost and its limit.
pub open spec fn cost_message(name: Seq<char>, current: u64, limit: u64) -> Seq<char> {
    if !is_positive(limit) {
        name + ": "@ + dollars_spec(current) + " / unlimited"@
    } else {
        name + ": "@ + dollars_spec(current) + " / "@ + dollars_spec(limit)
    }
}

/// The lines of the status log, in order.
pub open spec fn messages_spec(s: Snapshot) -> Seq<Seq<char>> {
    let service = if s.health.status@ == "healthy"@ {
        "service: healthy version="@ + (match s.health.version {
            Some(v) => v@,
            None => "-"@,
        })
    } else {
        "service: "@ + s.health.status@
    };
    let redis = match s.health.redis_status {
        Some(r) => if r@ == "healthy"@ {
            "redis: healthy"@
        } else {
            "redis: "@ + r@
        },
        None => "redis: unknown"@,
    };
    let key = if !s.user.is_active {
        "key: inactive"@
    } else if !s.user.is_activated {
        "key: not activated"@
    } else {
        "key: active"@
    };
    let permissions = if has_openai(s.user.permissions@) {
        "permissions: openai"@
    } else {
        "permissions: missing openai ("@ + join(views(s.user.permissions@), ","@) + ")"@
    };
    let pool = if s.pool_visible {
        "pool limits: visible"@
    } else {
        "pool limits: not visible without admin token"@
    };
    let base = seq![
        service,
        redis,
        key,
        permissions,
        cost_message(
            "currentDailyCost"@,
            s.user.limits.current_daily_cost@,
            s.user.limits.daily_cost_limit@,
        ),
        cost_message(
            "currentTotalCost"@,
            s.user.limits.current_total_cost@,
            s.user.limits.total_cost_limit@,
        ),
        pool,
    ];
    match s.last_error {
        Some(e) => base.push("last error: "@ + e@),
        None => base,
    }
}

/// How bad a status is, from best to worst.
#[derive(Clone, Copy, PartialEq, Eq, Structural)]
enum Severity {
    Fine,
    Warning,
    Failure,
}

fn push_message(messages: &mut Vec<String>, m: String)
    ensures
        views(final(messages)@) == views(old(messages)@).push(m@),
{
    let ghost before = messages@;
    messages.push(m);
    assert(views(messages@) =~= views(before).push(m@));
}

fn literal(s: &str) -> (r: String)
    ensures
        r@ == s@,
{
    s.to_owned()
}

fn check_cost_limit(name: &str, current: Dollars, limit: Dollars, messages: &mut Vec<String>) -> (near: Severity)
    ensures
        views(final(messages)@) == views(old(messages)@).push(cost_message(name@, current@, limit@)),
        near == (if cost_over(current@, limit@) {
            Severity::Failure
        } else if cost_near(current@, limit@) {
            Severity::Warning
        } else {
            Severity::Fine
        }),
{
    let mut m = literal(name);
    m.append(": ");
    m.append(dollars(current).as_str());
    if !is_positive_exec(limit) {
        m.append(" / unlimited");
        push_message(messages, m);
        return Severity::Fine;
    }
    m.append(" / ");
    m.append(dollars(limit).as_str());
    push_message(messages, m);
    if cost_is_over(current, limit) {
        Severity::Failure
    } else if cost_is_near(current, limit) {
        Severity::Warning
    } else {
        Severity::Fine
    }
}

fn worse(a: Severity, b: Severity) -> (r: Severity)
    ensures
        r == (if a == Severity::Failure || b == Severity::Failure {
            Severity::Failure
        } else if a == Severity::Warning || b == Severity::Warning {
            Severity::Warning
        } else {
            Severity::Fine
        }),
{
    if a == Severity::Failure || b == Severity::Failure {
        Severity::Failure
    } else if a == Severity::Warning || b == Severity::Warning {
        Severity::Warning
    } else {
        Severity::Fine
    }
}

fn has_openai_permission(permissions: &Vec<String>) -> (r: bool)
    ensures
        r == has_openai(permissions@),
{
    let mut i: usize = 0;
    while i < permissions.len()
        invariant
            0 <= i <= permissions.len(),
            forall|k: int| 0 <= k < i ==> permissions@[k]@ != "openai"@,
        decreases permissions.len() - i,
    {
        if str_eq(permissions[i].as_str(), "openai") {
            return true;
        }
        i = i + 1;
    }
    false
}

/// The overall level and the status log of a snapshot. The level is `FAIL` when the
/// service, Redis or the key is unhealthy or a cost limit is reached, else `WARN`
/// when the `openai` permission is missing, a cost is at nine tenths of its limit
/// or the last refresh failed, else `OK`.
pub fn build_status(snapshot: &Snapshot) -> (r: StatusResult)
    ensures
        r.level@ == level_spec(*snapshot),
        views(r.messages@) == messages_spec(*snapshot),
{
    let mut severity = Severity::Fine;
    let mut messages: Vec<String> = Vec::new();
    let ghost s = *snapshot;

    if str_eq(snapshot.health.status.as_str(), "healthy") {
        let mut m = literal("service: healthy version=");
        match &snapshot.health.version {
            Some(v) => m.append(v.as_str()),
            None => m.append("-"),
        }
        push_message(&mut messages, m);
    } else {
        severity = Severity::Failure;
        let mut m = literal("service: ");
        m.append(snapshot.health.status.as_str());
        push_message(&mut messages, m);
    }

    match &snapshot.health.redis_status {
        Some(status) => {
            if str_eq(status.as_str(), "healthy") {
                push_message(&mut messages, literal("redis: healthy"));
            } else {
                severity = Severity::Failure;
                let mut m = literal("redis: ");
                m.append(status.as_str());
                push_message(&mut messages, m);
            }
        },
        None => push_message(&mut messages, literal("redis: unknown")),
    }

    if !snapshot.user.is_active {
        severity = Severity::Failure;
        push_message(&mut messages, literal("key: inactive"));
    } else if !snapshot.user.is_activated {
        severity = Severity::Failure;
        push_message(&mut messages, literal("key: not activated"));
    } else {
        push_message(&mut messages, literal("key: active"));
    }

    if !has_openai_permission(&snapshot.user.permissions) {
        severity = worse(severity, Severity::Warning);
        let mut m = literal("permissions: missing openai (");
        m.append(join_strings(&snapshot.user.permissions, ",").as_str());
        m.append(")");
        push_message(&mut messages, m);
    } else {
        push_message(&mut messages, literal("permissions: openai"));
    }

    let daily = check_cost_limit(
        "currentDailyCost",
        snapshot.user.limits.current_daily_cost,
        snapshot.user.limits.daily_cost_limit,
        &mut messages,
    );
    severity = worse(severity, daily);
    let total = check_cost_limit(
        "currentTotalCost",
        snapshot.user.limits.current_total_cost,
        snapshot.user.limits.total_cost_limit,
        &mut messages,
    );
    severity = worse(severity, total);

    if snapshot.pool_visible {
        push_message(&mut messages, literal("pool limits: visible"));
    } else {
        push_message(&mut messages, literal("pool limits: not visible without admin token"));
    }

    match &snapshot.last_error {
        Some(err) => {
            severity = worse(severity, Severity::Warning);
            let mut m = literal("last error: ");
            m.append(err.as_str());
            push_message(&mut messages, m);
        },
        None => {},
    }

    assert(views(messages@) =~= messages_spec(s));
    let level = match severity {
        Severity::Failure => literal("FAIL"),
        Severity::Warning => literal("WARN"),
        Severity::Fine => literal("OK"),
    };
    StatusResult { level, messages }
}

/// A failed last refresh never leaves the status at `OK`: with a last error the
/// level is `FAIL` where the snapshot without it is `FAIL`, and `WARN` otherwise.
pub proof fn law_last_error_warns(s: Snapshot)
    requires
        s.last_error is Some,
    ensures
        level_spec(s) != "OK"@,
        level_spec(s) == (if level_spec(Snapshot { last_error: None, ..s }) == "FAIL"@ {
            "FAIL"@
        } else {
            "WARN"@
        }),
{
    reveal_strlit("OK");
    reveal_strlit("WARN");
    reveal_strlit("FAIL");
    assert("OK"@.len() == 2 && "WARN"@.len() == 4 && "FAIL"@.len() == 4);
}

/// The process exit code for a status level: 0 for `OK`, 1 for `WARN`, 2 otherwise.
pub fn status_exit_code(level: &str) -> (code: i32)
    ensures
        code == (if level@ == "OK"@ {
            0i32
        } else if level@ == "WARN"@ {
            1i32
        } else {
            2i32
        }),
{
    if str_eq(level, "OK") {
        0
    } else if str_eq(level, "WARN") {
        1
    } else {
        2
    }
}

} // verus!
