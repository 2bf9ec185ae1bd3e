use rungbot::double::Double;
use rungbot::watch::btc_level;
use rungbot::watch::btc_level::Levels;
use rungbot::watch::json::{obj, Json};
use rungbot::watch::regime_state::{mark_notified, pending_shift};
use rungbot::watch::{upper, utc_minute, Hints};

fn d(x: f64) -> Double {
    Double { bits: x.to_bits() }
}

fn reg(px: f64) -> Json {
    obj(vec![("market", Json::text("chop")), ("btc", obj(vec![("px", Json::Float(d(px)))]))])
}

fn levels() -> Levels {
    Levels { alert_usd: d(30_000.0), warn_usd: d(33_000.0) }
}

#[test]
fn once_per_crossing_and_rearmed_by_a_recovery() {
    let h = Hints::default();
    let c = btc_level::check(&reg(32_000.0), None, levels(), false, d(0.0), &h);
    assert!(c.fire.as_ref().unwrap().0.contains("approaching"));
    let st = c.state.unwrap();
    assert!(btc_level::check(&reg(32_500.0), Some(&st), levels(), false, d(0.0), &h).fire.is_none());
    let back = btc_level::check(&reg(34_000.0), Some(&st), levels(), false, d(0.0), &h);
    assert!(back.fire.is_none());
    let st = back.state.unwrap();
    assert_eq!(st.get("band").and_then(Json::as_str), Some("ok"));
    assert!(btc_level::check(&reg(32_900.0), Some(&st), levels(), false, d(0.0), &h).fire.is_some());
}

#[test]
fn a_dry_run_writes_nothing_and_no_price_decides_nothing() {
    let h = Hints::default();
    assert!(btc_level::check(&reg(1.0), None, levels(), true, d(0.0), &h).state.is_none());
    let none = btc_level::check(&Json::obj(), None, levels(), false, d(0.0), &h);
    assert!(none.state.is_none());
    assert!(none.fire.is_none());
}

#[test]
fn dumps_matches_python_separators_and_escapes() {
    let j = obj(vec![
        ("a", Json::Int(1)),
        ("b", Json::Float(d(2.0))),
        ("c", Json::Arr(vec![Json::Null, Json::Bool(true)])),
        ("d", Json::text("\u{fc}\"\u{1F680}")),
        ("e", Json::obj()),
    ]);
    assert_eq!(
        j.dumps(None),
        r#"{"a": 1, "b": 2.0, "c": [null, true], "d": "\u00fc\"\ud83d\ude80", "e": {}}"#
    );
    assert_eq!(
        obj(vec![("x", Json::Arr(vec![Json::Int(1)]))]).dumps(Some(2)),
        "{\n  \"x\": [\n    1\n  ]\n}"
    );
}

#[test]
fn set_keeps_position_and_appends_new_keys() {
    let mut j = obj(vec![("a", Json::Int(1)), ("b", Json::Int(2))]);
    j.set("a", Json::Int(9));
    j.set("c", Json::Int(3));
    assert_eq!(j.dumps(None), r#"{"a": 9, "b": 2, "c": 3}"#);
}

#[test]
fn python_equality_and_truthiness() {
    assert!(Json::Int(1).py_eq(&Json::Float(d(1.0))));
    assert!(Json::Bool(true).py_eq(&Json::Int(1)));
    assert!(!Json::Null.py_eq(&Json::Bool(false)));
    assert!(!Json::Str(String::new()).truthy());
    assert!(Json::Str("0".into()).truthy());
    assert_eq!(Json::Float(d(28.0)).py_str(), "28.0");
    assert_eq!(Json::Int(28).py_str(), "28");
}

fn hist(labels: &[&str], notified: Json) -> Json {
    let last = labels.last().copied().unwrap_or("unknown");
    let held = labels.iter().rev().take_while(|x| **x == last).count() as i64;
    obj(vec![
        ("label", Json::text(last)),
        ("prev_label", Json::Null),
        ("held_days", Json::Int(held)),
        ("confirmed", Json::Bool(held >= 3)),
        ("confirm_days", Json::Int(3)),
        ("days_covered", Json::Int(labels.len() as i64)),
        ("notified", notified),
    ])
}

#[test]
fn a_stage_is_announced_once() {
    let mut h = hist(&["chop", "bull"], Json::obj());
    let s = pending_shift(&h).expect("a fresh flip is pending");
    assert_eq!((s.label.as_str(), s.stage.as_str()), ("bull", "provisional"));
    mark_notified(&mut h, "bull", "provisional");
    assert!(pending_shift(&h).is_none());
}

#[test]
fn a_confirmation_suppresses_the_provisional_stage_too() {
    let h = hist(&["chop", "bull"], obj(vec![("bull", Json::text("confirmed"))]));
    assert!(pending_shift(&h).is_none());
}

#[test]
fn words_rise_and_minutes_read() {
    assert_eq!(upper("stra\u{df}e"), "STRASSE");
    assert_eq!(utc_minute(d(1_725_408_059.0)), "2024-09-04 00:00 UTC");
}
