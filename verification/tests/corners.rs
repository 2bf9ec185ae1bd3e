use rungbot::dashboard;
use rungbot::dashboard::Num;
use rungbot::dashboard::net;
use rungbot::deploy;
use rungbot::deploy::cli;
use rungbot::deploy::{Config, Zones};
use rungbot::double::Double;
use rungbot::guard::{check, Caps, Context, Intent, Mode, Refusal};
use rungbot::housekeeping as hk;
use rungbot::housekeeping::{Route, RunCtx, Settings};
use rungbot::ids;
use rungbot::import;
use rungbot::journal;
use rungbot::journal::{Journal, Order};
use rungbot::pyfmt;
use rungbot::text;
use rungbot::watch::btc_level;
use rungbot::watch::json;
use rungbot::watch::json::{obj, Json};
use rungbot::watch::textwrap;

fn d(x: f64) -> Double {
    Double { bits: x.to_bits() }
}

fn f(x: Double) -> f64 {
    f64::from_bits(x.bits)
}

fn num(x: f64) -> Json {
    Json::Float(d(x))
}

const T0: f64 = 1_700_000_000.0;

// ------------------------------------------------------------------ ids

#[test]
fn coercing_twice_changes_nothing() {
    for raw in ["t/x", "t-t-x", "t-x", "x", "t t-tx", "t/t/t-", "tt-x", "t", "t-é", "csVERYLONGSYMBOLNAMEb944444r1u93041"] {
        match ids::gate_cid(raw) {
            Ok(c) => {
                assert_eq!(ids::gate_cid(&c).unwrap(), c, "{raw}");
                assert_eq!(ids::safe_gate_text(raw).unwrap(), format!("t-{c}"));
            }
            Err(_) => assert_eq!(raw, "t/t/t-"),
        }
    }
    assert_eq!(ids::gate_cid("t/x").unwrap(), "x");
    assert_eq!(ids::gate_cid("t-t-x").unwrap(), "x");
    assert_eq!(ids::gate_cid("tx").unwrap(), "tx");
}

#[test]
fn an_over_long_id_ends_in_a_hash() {
    let c = ids::safe_cid("csVERYLONGSYMBOLNAMEb944444r1u93041u93042").unwrap();
    assert_eq!(c.len(), 36);
    assert_eq!(&c[..30], "csVERYLONGSYMBOLNAMEb944444r1-");
    assert!(c[30..].chars().all(|x| x.is_ascii_digit() || ('a'..='f').contains(&x)));
    assert_eq!(ids::safe_cid("a b").unwrap(), "a-b");
    assert_eq!(ids::gate_cid(&"x.".repeat(20)).unwrap().len(), 28);
}

#[test]
fn every_form_of_a_uuid_is_read() {
    let u = ids::parse_uuid("6b8465f2-752a-568d-a981-7742917775d0").unwrap();
    assert_eq!(u, ids::REVX_NAMESPACE);
    for t in [
        "6B8465F2-752A-568D-A981-7742917775D0",
        "6b8465f2752a568da9817742917775d0",
        "{6b8465f2-752a-568d-a981-7742917775d0}",
        "urn:uuid:6b8465f2-752a-568d-a981-7742917775d0",
    ] {
        assert_eq!(ids::parse_uuid(t), Some(u), "{t}");
    }
}

#[test]
fn a_suffix_is_replaced_whatever_it_holds() {
    let cid = "csAAAb944444r1";
    for suffix in ["u1", "", "/odd", "u123456789012345678901234567890"] {
        let once = journal::suffixed(cid, suffix);
        assert_eq!(journal::root_id(&once), cid, "{suffix}");
        assert_eq!(journal::suffixed(&once, "u2"), "csAAAb944444r1u2");
    }
}

// ------------------------------------------------------------------ numbers and texts

#[test]
fn what_does_not_print_is_escaped() {
    for (s, want) in [
        ("\u{a0}", "'\\xa0'"),
        ("\u{ad}", "'\\xad'"),
        ("\u{85}", "'\\x85'"),
        ("\u{0}", "'\\x00'"),
        ("\u{200b}", "'\\u200b'"),
        ("\u{2028}", "'\\u2028'"),
        ("\u{e000}", "'\\ue000'"),
        ("\u{10ffff}", "'\\U0010ffff'"),
        ("\u{378}", "'\\u0378'"),
        ("e\u{301}", "'e\u{301}'"),
        ("é — ✓", "'é — ✓'"),
        ("it's", "\"it's\""),
    ] {
        assert_eq!(pyfmt::repr_str(s), want);
    }
}

#[test]
fn underscores_stand_between_digits() {
    for (s, want) in [
        ("_1", None),
        ("1_", None),
        ("1__0", None),
        ("1_.5", None),
        ("1e_5", None),
        ("in_f", None),
        ("1_0", Some(10.0)),
        (" 1_0.5_0 ", Some(10.5)),
        ("1e1_0", Some(1e10)),
    ] {
        assert_eq!(Json::text(s).to_float().map(f), want, "{s}");
        assert_eq!(pyfmt::parse_float(s).ok().map(f), want, "{s}");
    }
}

#[test]
fn only_json_is_parsed() {
    for s in ["01", "1.", ".5", "+1", "--1", "1e", "1e+", "-", "00", "-01", "1.e5", "[1,]", "{\"a\":1,}", "{1:2}", "tru", "1 2"] {
        assert!(pyfmt::parse_ordered(s).is_none(), "{s}");
    }
    for (s, want) in [
        ("0", "0"),
        ("-0.5", "-0.5"),
        ("1e5", "100000.0"),
        ("[1, 2.0]", "[1, 2.0]"),
        ("123456789012345678901234567890123456789012", "123456789012345678901234567890123456789012"),
    ] {
        assert_eq!(pyfmt::py_repr(&pyfmt::parse_ordered(s).unwrap()), want);
    }
}

#[test]
fn values_are_equal_by_what_they_hold() {
    let list = |v: Json| Json::Arr(vec![v]);
    assert!(list(Json::Int(1)).py_eq(&list(num(1.0))));
    assert!(list(Json::Bool(true)).py_eq(&list(Json::Int(1))));
    assert!(!list(Json::Int(1)).py_eq(&Json::Int(1)));
    let a = obj(vec![("x", Json::Int(1)), ("y", num(2.0))]);
    let b = obj(vec![("y", Json::Int(2)), ("x", Json::Bool(true))]);
    assert!(a.py_eq(&b) && b.py_eq(&a), "keys in any order");
    assert!(!a.py_eq(&obj(vec![("x", Json::Int(1)), ("z", num(2.0))])));
    assert!(!Json::Int(9007199254740993).py_eq(&num(9007199254740992.0)));
    assert!(!Json::Int(9007199254740993).py_eq(&Json::Int(9007199254740992)));
    assert!(Json::Int(i64::MIN).py_eq(&num(-9223372036854775808.0)));
    assert!(!Json::Int(i64::MAX).py_eq(&num(9223372036854775808.0)));
    assert!(!num(f64::NAN).py_eq(&num(f64::NAN)));
    assert!(Json::text("1").py_eq(&Json::text("1")) && !Json::text("1").py_eq(&Json::Int(1)));
}

#[test]
fn large_whole_numbers_differ() {
    let told = import::first_difference(&Json::Int(9007199254740993), &Json::Int(9007199254740992), "a");
    assert_eq!(told.unwrap(), "a: 9007199254740993 read back as 9007199254740992");
    assert!(import::first_difference(&Json::Int(5), &num(5.0), "a").is_none());
    assert!(import::first_difference(&num(9007199254740992.0), &Json::Int(9007199254740993), "a").is_some());
}

#[test]
fn a_quoted_text_reads_back() {
    for s in ["plain", "a\"b\\c/", "\u{0}\u{7f}\u{8}\u{c}\n\r\t", "é—✓", "😀"] {
        let mut out = String::new();
        json::write_str(&mut out, s);
        assert!(out.is_ascii());
        assert_eq!(pyfmt::py_str(&pyfmt::parse_ordered(&out).unwrap()), s);
    }
}

#[test]
fn wrapping_keeps_every_character() {
    let t = "\tone re-anchor  two\nthree-and-four aaaaaaaaaaaaaaaaaaaaaaaa 30-min ";
    let dense = |s: &str| -> String { s.chars().filter(|c| !c.is_whitespace()).collect() };
    for width in [0, 1, 4, 9, 40] {
        assert_eq!(dense(&textwrap::wrap(t, width).concat()), dense(t), "{width}");
    }
    let chars: Vec<char> = t.chars().collect();
    assert_eq!(textwrap::split(&chars).concat(), t);
    assert_eq!(textwrap::wrap("aaa bbbbbb", 4), ["aaa ", "bbbb", "bb"]);
}

#[test]
fn only_a_full_line_ends_with_white_space() {
    let t = "  aaa bbbbbb c          ddddddddd-e  ff 30-min";
    for width in 1..12 {
        for (i, line) in textwrap::wrap(t, width).iter().enumerate() {
            assert!(!line.is_empty());
            assert!(i == 0 || !line.starts_with(' '), "{line:?}");
            assert!(line.len() == width || !line.ends_with(' '), "{line:?}");
        }
    }
    assert_eq!(textwrap::wrap("  a b", 4), ["  a", "b"], "the first line keeps what it begins with");
}

#[test]
fn a_key_is_written_as_json_writes_it() {
    let shown: Vec<String> = [Json::text("a"), Json::Null, Json::Bool(true), Json::Int(-3), num(1.5), num(f64::NAN)]
        .iter()
        .map(dashboard::key_str)
        .collect();
    assert_eq!(shown, ["a", "null", "true", "-3", "1.5", "NaN"]);
}

#[test]
fn a_row_with_a_partial_fill_is_never_archived() {
    let mut j = Journal::default();
    for (cid, bought) in [("a", None), ("b", Some(d(0.5)))] {
        let mut o = Order::new(cid);
        o.status = "canceled".into();
        o.note = Some("manual --cancel".into());
        o.ts = Some(d(1_000.0));
        o.part_base = bought;
        j.record(o);
    }
    let moved: Vec<String> = j.archive_old(d(1.0), d(1_000_000.0)).into_iter().map(|o| o.client_id).collect();
    assert_eq!(moved, ["a"]);
    assert!(j.has("b"));
}

#[test]
fn whole_numbers_add_exactly() {
    let max = Num::Whole(i64::MAX);
    assert!(matches!(dashboard::py_sum(&vec![max, max, Num::Whole(-i64::MAX)]), Num::Whole(i64::MAX)));
    match dashboard::py_sum(&vec![max, max]) {
        Num::Frac(x) => assert_eq!(f64::from_bits(x.bits), 18446744073709551616.0),
        Num::Whole(_) => panic!("the sum is not held"),
    }
}

fn as_value(j: &Json) -> serde_json::Value {
    match j {
        Json::Null => serde_json::Value::Null,
        Json::Bool(b) => serde_json::Value::from(*b),
        Json::Int(i) => serde_json::Value::from(*i),
        Json::Float(x) => serde_json::Value::from(f(*x)),
        Json::Str(s) => serde_json::Value::from(s.as_str()),
        Json::Arr(a) => serde_json::Value::from(a.iter().map(as_value).collect::<Vec<_>>()),
        Json::Obj(o) => serde_json::Value::Object(o.iter().map(|(k, v)| (k.clone(), as_value(v))).collect()),
    }
}

#[test]
fn compact_text_is_what_serde_writes() {
    let numbers = [
        0.0, -0.0, 1.0, -1.5, 0.1, 1e-4, 1e-5, 1.25e-5, 9.9e-6, 1e-7, 1e15, 123456789012345680.0, 1e16, 1.5e16, 1e22,
        9007199254740993.0, 5e-324, f64::MAX, f64::MIN_POSITIVE, 43210.1, 1e100, 1e-100, f64::NAN, f64::INFINITY,
    ];
    for x in numbers {
        assert_eq!(num(x).compact(), as_value(&num(x)).to_string(), "{x:?}");
    }
    let texts = ["", "a\"b\\c", "\u{8}\t\n\u{c}\r\u{1}\u{1f}", "caf\u{e9} \u{7f} \u{1f600}", "/"];
    for t in texts {
        assert_eq!(Json::text(t).compact(), as_value(&Json::text(t)).to_string(), "{t:?}");
    }
    let nested = obj(vec![
        ("k\"", Json::Arr(vec![Json::Null, Json::Bool(true), Json::Int(-3), Json::Arr(vec![]), Json::obj()])),
        ("o", obj(vec![("x", num(2.0)), ("y", Json::text("z"))])),
    ]);
    assert_eq!(nested.compact(), as_value(&nested).to_string());
}

#[test]
fn every_registered_status_has_its_reason() {
    for (code, want) in [(404, "Not Found"), (413, "Content Too Large"), (451, "Unavailable For Legal Reasons"), (505, "HTTP Version Not Supported"), (599, "")] {
        assert_eq!(net::reason(code), want);
    }
}

#[test]
fn a_capital_or_a_quote_is_shown_as_it_is() {
    assert!(text::prints('~') && text::prints('é') && !text::prints('\u{feff}'));
    assert_eq!(Mode::parse("a\"b\\").unwrap_err(), "mode must be off, dry or live, got \"a\\\"b\\\\\"");
}

// ------------------------------------------------------------------ the rails

fn rails(quote: f64, decided: f64, venue: f64, caps: Caps) -> Result<(), Refusal> {
    let intent = Intent { sym: "AAA".into(), quote: d(quote), decided_price: d(decided), venue_price: d(venue) };
    let ctx = Context { mode: Mode::Live, halted: false, acknowledged: true, today_notional: d(0.0), today_orders: 0 };
    check(&intent, ctx, caps)
}

#[test]
fn what_is_no_number_is_refused() {
    let caps = Caps::default();
    assert!(rails(10.0, 100.0, 100.0, caps).is_ok());
    for (q, a, b) in [
        (f64::NAN, 100.0, 100.0),
        (10.0, f64::NAN, 100.0),
        (10.0, 100.0, f64::NAN),
        (10.0, f64::INFINITY, f64::INFINITY),
        (f64::INFINITY, 100.0, 100.0),
    ] {
        assert!(rails(q, a, b, caps).is_err(), "{q} {a} {b}");
    }
    let mut none = Caps { max_order_quote: d(0.0), max_daily_notional: d(0.0), max_daily_orders: 0, max_slippage_pct: d(0.0), min_order_quote: d(0.0) };
    assert_eq!(rails(f64::NAN, 100.0, 100.0, none), Err(Refusal::BadPrice));
    assert_eq!(rails(0.0, 100.0, 100.0, none), Err(Refusal::BadPrice));
    assert!(rails(1e9, 100.0, 300.0, none).is_ok(), "a cap of zero is no cap");
    none.max_order_quote = d(f64::NAN);
    assert!(rails(10.0, 100.0, 100.0, none).is_err(), "a cap that is no number lets nothing through");
}

#[test]
fn a_crossing_is_one_mail_on_any_lines() {
    let day = |px: f64, state: Option<&Json>| {
        let reg = obj(vec![("btc", obj(vec![("px", num(px))]))]);
        let lv = btc_level::Levels { alert_usd: d(50.0), warn_usd: d(60.0) };
        let hints = rungbot::watch::Hints::default();
        btc_level::check(&reg, state, lv, false, d(T0), &hints)
    };
    let first = day(55.0, None);
    assert!(first.fire.is_some(), "more than 2% above the lower line, under the upper one");
    assert!(day(55.0, first.state.as_ref()).fire.is_none());
}

// ------------------------------------------------------------------ journal and runs

fn row(cid: &str, exch: &str, status: &str) -> Order {
    let mut o = Order::new(cid);
    o.sym = "AAA".into();
    o.exch = exch.into();
    o.pair = "AAA_USDT".into();
    o.side = "sell".into();
    o.kind = "limit_sell".into();
    o.status = status.into();
    o.price = Some(d(11.0));
    o.base = Some(d(2.0));
    o.ts = Some(d(T0));
    o
}

fn book(rows: Vec<Order>) -> Journal {
    let mut j = Journal::default();
    for o in rows {
        j.record(o);
    }
    j
}

#[test]
fn what_never_filled_is_not_listed() {
    let mut j = book(vec![row("a", "gate", "open")]);
    assert!(j.filled_since(d(0.0), true).is_empty());
    assert!(j.filled_since(d(-1.0), false).is_empty());
    let mut o = row("b", "gate", "filled");
    o.filled_ts = Some(d(5.0));
    j.record(o);
    assert_eq!(j.filled_since(d(5.0), true).len(), 1);
    assert!(j.filled_since(d(5.0), false).is_empty());
}

#[test]
fn a_step_that_fails_ends_alone() {
    let ctx = RunCtx { now: d(T0), blocked: false, market: None, trailing: vec![], policy: vec![] };
    let (bal, _) = hk::fetch_balances(&Ok(vec![]), &Ok(vec![]), &Ok(vec![]), "live");
    let mut answers: Vec<hk::Answer> = vec![];
    loop {
        let start = hk::work_on(book(vec![row("a", "kraken", "error")]), Json::obj(), hk::TtlWarned::default(), vec![]);
        let w = hk::run(&Settings::default(), &ctx, &bal, &vec![], &vec![], start, &answers);
        match w.ask {
            Some(hk::Ask::TtlDays(..)) => answers.push(hk::Answer::Number(d(14.0))),
            Some(other) => panic!("{other:?}"),
            None => {
                let said: Vec<(&str, &str)> = w.out.iter().map(|o| (o.level.as_str(), o.text.as_str())).collect();
                assert_eq!(said, [("err", "housekeeping: 'kraken'")]);
                assert_eq!(w.ladder.get("_bal").unwrap().get("ts").unwrap().num(), Some(d(T0)), "drift ran");
                assert!(w.fault.is_none());
                break;
            }
        }
    }
}

#[test]
fn a_sell_is_given_up_once() {
    let mut tired = row("a", "gate", "error");
    tired.retries = Some(5);
    let w = hk::retry_failed_limit_sells(hk::work_on(book(vec![tired]), Json::obj(), hk::TtlWarned::default(), vec![]), &vec![]);
    assert_eq!(w.out.len(), 1);
    assert_eq!(w.journal.rows()[0].gave_up, Some(true));
    let again = hk::retry_failed_limit_sells(w, &vec![]);
    assert_eq!(again.out.len(), 1, "nothing more is said");
}

fn config(live: bool, halt_file: Option<&str>) -> Config {
    Config {
        deploy: "live".into(),
        live_trading_enabled: live,
        halt_file: halt_file.map(String::from),
        deploy_min_usd: d(10.0),
        deploy_max_tranche_usd: d(500.0),
        deploy_max_depth_pct: d(60.0),
        deploy_pin_prices: true,
        deploy_sweep_idle: true,
        deploy_bull_sweep: true,
        deploy_bull_sweep_days: d(14.0),
        deploy_bull_sweep_max_age: d(10.0),
        deploy_alloc: vec![("AAA".into(), d(1.0))],
        deploy_zones: vec![("AAA".into(), Zones { depths: vec![d(10.0)], weights: vec![d(1.0)] })],
        routing: vec![Route { sym: "AAA".into(), exch: "gate".into(), pair: "AAA_USDT".into(), quote: "USDT".into() }],
        revx_pairs: vec![],
    }
}

#[test]
fn a_cancel_needs_live_trading_and_no_more() {
    let zone = || {
        let mut o = row("z", "gate", "open");
        o.side = "buy".into();
        o.kind = "deploy_buy".into();
        o.order_id = Some("9".into());
        deploy::work_on(book(vec![o]), Json::obj())
    };
    let off = cli::cancel(zone(), &config(false, None), None, "/h", &vec![]);
    assert_eq!(off.error.as_deref(), Some("blocked: LIVE_TRADING_ENABLED is not 'yes'"));
    assert!(off.work.ask.is_none() && off.work.journal.rows()[0].status == "open");
    let halted = cli::cancel(zone(), &config(true, Some("/h")), None, "/h", &vec![]);
    assert!(halted.error.is_none() && halted.work.ask.is_some(), "a halt file does not stop it");
}
