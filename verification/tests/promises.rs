use rungbot::command;
use rungbot::command::Args;
use rungbot::dashboard::snapshot;
use rungbot::deploy;
use rungbot::deploy::audit;
use rungbot::deploy::audit::Reading;
use rungbot::deploy::check;
use rungbot::deploy::check::Seen;
use rungbot::deploy::onramp;
use rungbot::deploy::{Answer, Ask, Config};
use rungbot::double::Double;
use rungbot::gate::PairInfo;
use rungbot::housekeeping::Route;
use rungbot::import;
use rungbot::journal::{read_row, Journal, Order};
use rungbot::venue::{Balance, ParsedOrder};
use rungbot::watch::json::{obj, Json};
use rungbot::watch::textwrap;

fn d(x: f64) -> Double {
    Double { bits: x.to_bits() }
}

fn f(x: Double) -> f64 {
    f64::from_bits(x.bits)
}

fn num(x: f64) -> Json {
    Json::Float(d(x))
}

const T0: f64 = 1_700_000_000.0;

fn full_row() -> Order {
    let mut o = Order::new("csAAAb944444r1");
    o.sym = "AAA".into();
    o.exch = "gate".into();
    o.pair = "AAA_USDT".into();
    o.side = "buy".into();
    o.kind = "deploy_buy".into();
    o.status = "open".into();
    o.quote = Some(d(16.5));
    o.price = Some(d(8.25));
    o.base = Some(d(2.0));
    o.rung = Some(-3);
    o.ts = Some(d(T0));
    o.note = Some("rolled \"twice\"".into());
    o.label = Some("".into());
    o.order_id = Some("17".into());
    o.filled_base = Some(d(0.1));
    o.retries = Some(2);
    o.gave_up = Some(false);
    o.swept = Some(true);
    o.adopted_ts = Some(d(T0 + 0.5));
    o.extra = obj(vec![("z", Json::Null), ("a", Json::Arr(vec![Json::Int(1)]))]);
    o
}

#[test]
fn a_written_row_reads_back() {
    for o in [full_row(), Order::new("x"), Order::new("")] {
        let text = o.to_json().dumps(None);
        let back = read_row(&o.to_json()).unwrap();
        assert_eq!(back.to_json().dumps(None), text);
        assert_eq!(back.rung, o.rung);
        assert_eq!(back.label, o.label);
        assert_eq!(back.extra.dumps(None), o.extra.dumps(None));
    }
}

#[test]
fn an_old_row_reads_under_its_old_names() {
    let raw = obj(vec![
        ("client_id", Json::text("a")),
        ("venue", Json::text("revx")),
        ("placed_ts", Json::Int(5)),
        ("venue_order_id", Json::Int(77)),
    ]);
    let o = read_row(&raw).unwrap();
    assert_eq!((o.exch.as_str(), o.ts, o.order_id.as_deref()), ("revx", Some(d(5.0)), Some("77")));
    assert!(o.extra.dumps(None) == "{}");
    let bad = obj(vec![("client_id", Json::text("a")), ("price", Json::text("1"))]);
    assert_eq!(read_row(&bad).unwrap_err(), "price is not a number");
    assert_eq!(read_row(&Json::obj()).unwrap_err(), "a row has no client_id");
    assert_eq!(read_row(&Json::Null).unwrap_err(), "a row is not an object");
}

#[test]
fn a_row_is_changed_where_it_is() {
    let mut j = Journal::default();
    j.record(Order::new("a"));
    j.record(Order::new("b"));
    if let Some(o) = j.get_mut("a") {
        o.status = "filled".into();
    }
    assert!(j.get_mut("c").is_none());
    assert_eq!(j.get("a").unwrap().status, "filled");
    assert_eq!(j.rows()[0].client_id, "a", "the row keeps its place");
    let mut doc = obj(vec![("x", Json::Int(1)), ("y", Json::Int(2))]);
    if let Some(v) = doc.get_mut("x") {
        *v = Json::text("one");
    }
    assert!(doc.get_mut("z").is_none());
    assert_eq!(doc.dumps(None), "{\"x\": \"one\", \"y\": 2}");
}

#[test]
fn archiving_loses_nothing() {
    let mut j = Journal::default();
    for (cid, status) in [("a", "canceled"), ("b", "open"), ("c", "canceled"), ("d", "error")] {
        let mut o = Order::new(cid);
        o.status = status.into();
        o.note = Some("manual --cancel".into());
        o.ts = Some(d(T0));
        j.record(o);
    }
    let moved: Vec<String> = j.archive_old(d(1.0), d(T0 + 86_400.0)).into_iter().map(|o| o.client_id).collect();
    let left: Vec<String> = j.rows().into_iter().map(|o| o.client_id).collect();
    assert_eq!((moved, left), (vec!["a".to_string(), "c".into()], vec!["b".to_string(), "d".into()]));
}

#[test]
fn amounts_round_down_and_never_up() {
    let p = PairInfo { amount_precision: 8, price_precision: 2, min_base: d(0.0), min_quote: d(0.0) };
    assert_eq!(f(p.round_amount(d(0.123456789))), 0.12345678);
    assert_eq!(f(p.round_price(d(19.999))), 19.99);
    let just_below = 2.9959999999999998e-05;
    assert_eq!(f(p.round_amount(d(just_below))), 2.995e-05, "the product is already whole");
    for x in [0.29, 1.1, 4.35, 1e22, 0.0, 1.005, 123456.789] {
        assert!(f(p.round_amount(d(x))) <= x, "{x}");
    }
}

#[test]
fn a_value_does_not_differ_from_itself() {
    let v = obj(vec![("a", Json::Arr(vec![num(1.5), Json::Null])), ("b", obj(vec![("c", Json::Int(3))]))]);
    assert!(import::first_difference(&v, &v, "c1").is_none());
    let nan = num(f64::NAN);
    assert!(import::first_difference(&nan, &nan, "c1").is_some(), "what is no number equals nothing");
}

#[test]
fn a_flag_given_twice_counts_as_given_last() {
    let words: Vec<String> = ["--budget", "5", "--budget=7"].iter().map(|w| w.to_string()).collect();
    let a = Args::parse(&words).unwrap();
    assert_eq!(a.get("budget").unwrap(), "7");
    assert_eq!(a.num("budget", d(1.0)).unwrap(), d(7.0));
    assert!(a.get("pair-map").is_none());
}

#[test]
fn a_plan_is_taken_whole_or_not_at_all() {
    let entry = |sym: &str| obj(vec![("sym", Json::text(sym)), ("pct", num(10.0)), ("price", num(2.0))]);
    let map = vec![("AAA".to_string(), "AAA_USDT".to_string()), ("BBB".into(), "BBB_USDT".into())];
    let plan = obj(vec![("buys", Json::Arr(vec![entry("AAA"), entry("BBB")])), ("sells", Json::Arr(vec![entry("AAA")]))]);
    let orders = command::planned_orders(&plan, &map, d(50.0)).unwrap();
    let pairs: Vec<&str> = orders.iter().map(|p| p.pair.as_str()).collect();
    assert_eq!(pairs, ["AAA_USDT", "BBB_USDT", "AAA_USDT"]);
    assert!(orders.iter().all(|p| f(p.quote) == 5.0));
    let plan = obj(vec![("buys", Json::Arr(vec![entry("AAA"), entry("CCC")]))]);
    assert!(command::planned_orders(&plan, &map, d(50.0)).is_err());
}

#[test]
fn the_newest_comes_first() {
    let row = |id: i64, ts: f64| obj(vec![("id", Json::Int(id)), ("ts", num(ts))]);
    let rows = vec![row(1, 5.0), row(2, 9.0), row(3, 5.0), row(4, 7.0)];
    let ids: Vec<String> =
        snapshot::newest_first(&rows).iter().map(|r| r.get("id").unwrap().dumps(None)).collect();
    assert_eq!(ids, ["2", "4", "1", "3"], "and equal ones stay as they come");
}

// ------------------------------------------------------------------ deploy

fn config() -> Config {
    Config {
        deploy: "live".into(),
        live_trading_enabled: true,
        halt_file: None,
        deploy_min_usd: d(10.0),
        deploy_max_tranche_usd: d(500.0),
        deploy_max_depth_pct: d(60.0),
        deploy_pin_prices: true,
        deploy_sweep_idle: false,
        deploy_bull_sweep: true,
        deploy_bull_sweep_days: d(14.0),
        deploy_bull_sweep_max_age: d(10.0),
        deploy_alloc: vec![("AAA".into(), d(1.0))],
        deploy_zones: vec![],
        routing: vec![Route { sym: "AAA".into(), exch: "gate".into(), pair: "AAA_USDT".into(), quote: "USDT".into() }],
        revx_pairs: vec![],
    }
}

fn seen(free: f64, baseline: f64, reserve: f64) -> Seen {
    Seen {
        names: vec!["gate".into()],
        full: vec![("gate".into(), Some(vec![("USDT".into(), Balance { free: d(free), locked: d(0.0) })]))],
        deltas: vec![],
        zones: vec![],
        baselines: obj(vec![("gate", num(baseline))]),
        reserves: vec![("gate".into(), d(reserve))],
        rx_reserve: d(0.0),
        keep: d(0.0),
        ts_cut: d(T0),
    }
}

fn pass(free: f64, baseline: f64, reserve: f64) -> (Vec<f64>, f64) {
    let w = deploy::work_on(Journal::default(), Json::obj());
    let (_, p) = check::see_all(w, &config(), &seen(free, baseline, reserve), Json::obj());
    let amounts = p.tranches.iter().map(|t| f(t.amount)).collect();
    (amounts, f(p.baseline.get("gate").unwrap().num().unwrap()))
}

#[test]
fn new_capital_deploys_within_its_bounds() {
    assert_eq!(pass(150.0, 100.0, 0.0), (vec![50.0], 150.0));
    assert_eq!(pass(900.0, 100.0, 0.0), (vec![500.0], 600.0), "the rest counts again next time");
    assert_eq!(pass(150.0, 100.0, 130.0), (vec![20.0], 120.0), "beside the reserve");
    assert_eq!(pass(150.0, 100.0, 145.0), (vec![], 100.0));
}

#[test]
fn dust_is_carried_and_withdrawals_are_not() {
    assert_eq!(pass(105.0, 100.0, 0.0), (vec![], 100.0));
    assert_eq!(pass(110.0, 100.0, 0.0), (vec![10.0], 110.0));
    assert_eq!(pass(80.0, 100.0, 0.0), (vec![], 80.0));
}

#[test]
fn an_unread_gate_converts_nothing() {
    let usdc = vec![("USDC".to_string(), d(400.0))];
    let book = vec![("USDC".to_string(), Balance { free: d(400.0), locked: d(0.0) })];
    let answers = vec![
        Answer::Done,
        Answer::Free(usdc),
        Answer::Book(book),
        Answer::Done,
        Answer::Failed("down".into()),
    ];
    for n in 0..answers.len() {
        let part: Vec<Answer> = vec_of(&answers, n);
        let (w, _) = onramp::onramp(deploy::work_on(Journal::default(), Json::obj()), &config(), &part);
        assert!(!matches!(w.ask, Some(Ask::MarketSell(..)) | Some(Ask::MarketBuy(..)) | Some(Ask::RoundAmount(..))));
    }
    let (w, kept) = onramp::onramp(deploy::work_on(Journal::default(), Json::obj()), &config(), &answers);
    assert!(w.ask.is_none() && w.fault.is_none());
    assert!(kept.unknown, "the reserve is not known");
}

fn vec_of(answers: &[Answer], n: usize) -> Vec<Answer> {
    answers[..n]
        .iter()
        .map(|a| match a {
            Answer::Done => Answer::Done,
            Answer::Free(v) => Answer::Free(v.clone()),
            Answer::Book(v) => Answer::Book(v.clone()),
            Answer::Failed(e) => Answer::Failed(e.clone()),
            _ => panic!("not used here"),
        })
        .collect()
}

fn resting(id: &str) -> ParsedOrder {
    ParsedOrder {
        order_id: id.into(),
        filled: false,
        status: "open".into(),
        base_qty: None,
        quote: d(0.0),
        avg_price: None,
        price: Some(d(8.0)),
        fee: d(0.0),
        fee_asset: None,
        side: "BUY".into(),
        qty: d(2.0),
        client_id: String::new(),
    }
}

#[test]
fn an_audit_compares_both_ways() {
    let mut o = full_row();
    o.order_id = Some("1".into());
    o.base = Some(d(2.0));
    let reading = |orders: Vec<ParsedOrder>| Reading {
        exch: "gate".into(),
        book: vec![],
        open: vec![("AAA_USDT".into(), orders)],
        error: None,
    };
    let (_, s) = audit::run(&vec![reading(vec![resting("2")])], &vec![o], d(T0));
    let all = s.findings.join("\n");
    assert!(all.contains("csAAAb944444r1: journal open, venue has no order 1"), "{all}");
    assert!(all.contains("AAA_USDT buy 2 @ 8: resting at the venue, not in the journal"), "{all}");
    assert!(!s.ok);
}

#[test]
fn letters_beyond_ascii_have_capitals_too() {
    assert_eq!(rungbot::watch::upper("bär é"), "BÄR É");
    assert_eq!(textwrap::wrap("naïve-été 30-min", 10), ["naïve-été", "30-min"]);
    assert_eq!(textwrap::wrap("naïve-été", 7), ["naïve-", "été"]);
}
