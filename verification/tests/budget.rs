use stozher_kernel::budget::{accrual_of, would_exceed};
use stozher_kernel::json::Json;

fn from_value(value: &serde_json::Value) -> Json {
    match value {
        serde_json::Value::Null => Json::Null,
        serde_json::Value::Bool(b) => Json::Bool(*b),
        serde_json::Value::Number(n) => match (n.as_u64(), n.as_i64()) {
            (Some(u), _) => Json::Unsigned(u),
            (None, Some(i)) => Json::Signed(i),
            (None, None) => Json::Number(n.to_string()),
        },
        serde_json::Value::String(s) => Json::Text(s.clone()),
        serde_json::Value::Array(items) => Json::List(items.iter().map(from_value).collect()),
        serde_json::Value::Object(members) => {
            Json::Record(members.iter().map(|(k, v)| (k.clone(), from_value(v))).collect())
        }
    }
}

fn json(text: &str) -> Json {
    from_value(&serde_json::from_str::<serde_json::Value>(text).unwrap())
}

fn amounts(pairs: &[(&str, &str)]) -> Vec<(String, String)> {
    pairs.iter().map(|(k, v)| ((*k).to_owned(), (*v).to_owned())).collect()
}

fn figure<'a>(accrued: &'a [(String, String)], dimension: &str) -> Option<&'a str> {
    accrued.iter().find(|(k, _)| k == dimension).map(|(_, v)| v.as_str())
}

#[test]
fn an_applied_effect_is_one_request_and_a_refused_one_is_nothing() {
    let effect = |outcome: &str| {
        json(&format!("{{\"kind\":\"effect\",\"execution\":{{\"outcome\":\"{outcome}\"}}}}"))
    };
    assert_eq!(accrual_of(&effect("applied")), amounts(&[("requests", "1")]));
    for outcome in ["blocked", "denied", "failed", "attempted"] {
        assert!(accrual_of(&effect(outcome)).is_empty(), "{outcome} was charged as spend");
    }
}

#[test]
fn cognition_cost_accrues_money_and_the_dimensions_the_spec_shares() {
    let cognition = json(
        "{\"kind\":\"cognition\",\"cost\":{\"tokens-in\":18422,\"tokens-out\":1200,\"money-eur\":\"0.41\",\"wall-clock-ms\":9310}}",
    );
    let accrued = accrual_of(&cognition);
    assert_eq!(figure(&accrued, "money-eur"), Some("0.41"));
    assert_eq!(figure(&accrued, "tokens-in"), Some("18422"));
    assert_eq!(figure(&accrued, "tokens-out"), Some("1200"));
    assert_eq!(figure(&accrued, "wall-clock-ms"), None);
    assert_eq!(figure(&accrued, "wall-clock-seconds"), None);
}

#[test]
fn a_dimension_the_cap_does_not_name_is_unbounded() {
    let cap = json("{\"requests\":10}");
    assert!(would_exceed(&cap, &amounts(&[]), &amounts(&[("money-eur", "999")])).is_empty());
}

#[test]
fn the_boundary_is_at_most_and_not_less_than() {
    let cap = json("{\"requests\":10}");
    assert!(would_exceed(
        &cap,
        &amounts(&[("requests", "9")]),
        &amounts(&[("requests", "1")])
    )
    .is_empty());
    assert_eq!(
        would_exceed(&cap, &amounts(&[("requests", "10")]), &amounts(&[("requests", "1")])),
        vec!["requests".to_owned()]
    );
}

#[test]
fn money_is_compared_where_binary64_would_get_it_wrong() {
    let cap = json("{\"money-eur\":\"9007199254740992\"}");
    assert_eq!(
        would_exceed(
            &cap,
            &amounts(&[("money-eur", "9007199254740992")]),
            &amounts(&[("money-eur", "1")])
        ),
        vec!["money-eur".to_owned()],
        "the sum is one over the cap and the same binary64 as the cap"
    );
}

#[test]
fn a_cap_that_cannot_be_evaluated_is_not_headroom() {
    for cap in ["{\"money-eur\":\"not-a-number\"}", "{\"money-eur\":true}"] {
        assert_eq!(
            would_exceed(&json(cap), &amounts(&[]), &amounts(&[("money-eur", "1")])),
            vec!["money-eur".to_owned()],
            "{cap} read as unbounded"
        );
    }
}

#[test]
fn fractions_are_aligned_before_they_are_compared() {
    let cap = json("{\"money-eur\":\"10.5\"}");
    assert!(would_exceed(
        &cap,
        &amounts(&[("money-eur", "10.25")]),
        &amounts(&[("money-eur", "0.250")])
    )
    .is_empty());
    assert_eq!(
        would_exceed(
            &cap,
            &amounts(&[("money-eur", "10.25")]),
            &amounts(&[("money-eur", "0.251")])
        ),
        vec!["money-eur".to_owned()]
    );
}
