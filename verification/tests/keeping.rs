use rungbot::deploy;
use rungbot::deploy::audit;
use rungbot::deploy::audit::Reading;
use rungbot::deploy::bull;
use rungbot::deploy::check;
use rungbot::deploy::churn;
use rungbot::deploy::cli;
use rungbot::deploy::fillodds;
use rungbot::deploy::fillodds::Day;
use rungbot::deploy::placing;
use rungbot::deploy::{Config, Zones};
use rungbot::double::Double;
use rungbot::housekeeping as hk;
use rungbot::housekeeping::{Paired, Route, RunCtx, Settings};
use rungbot::journal;
use rungbot::journal::{Journal, Order};
use rungbot::venue::{Balance, ParsedOrder};
use rungbot::watch::json::{obj, Json};

fn d(x: f64) -> Double {
    Double { bits: x.to_bits() }
}

fn f(x: Double) -> f64 {
    f64::from_bits(x.bits)
}

fn num(x: f64) -> Json {
    Json::Float(d(x))
}

const T0: f64 = 1_700_000_000.0;

fn sell(cid: &str, status: &str) -> Order {
    let mut o = Order::new(cid);
    o.sym = "AAA".into();
    o.exch = "gate".into();
    o.pair = "AAA_USDT".into();
    o.side = "sell".into();
    o.kind = "limit_sell".into();
    o.status = status.into();
    o.price = Some(d(11.0));
    o.base = Some(d(2.0));
    o.ts = Some(d(T0));
    o
}

fn book(rows: Vec<Order>) -> Journal {
    let mut j = Journal::default();
    for o in rows {
        j.record(o);
    }
    j
}

fn books(rows: Vec<Order>) -> hk::Work {
    hk::work_on(book(rows), Json::obj(), hk::TtlWarned::default(), vec![])
}

fn placed(id: &str, status: &str) -> ParsedOrder {
    ParsedOrder {
        order_id: id.into(),
        filled: false,
        status: status.into(),
        base_qty: None,
        quote: d(0.0),
        avg_price: None,
        price: None,
        fee: d(0.0),
        fee_asset: None,
        side: "sell".into(),
        qty: d(2.0),
        client_id: "c".into(),
    }
}

#[test]
fn a_pair_is_journaled_before_it_is_sent() {
    let go = |answers: Vec<hk::Answer>| {
        hk::pair_limit_sell(books(vec![]), "gate", "AAA_USDT", "AAA", d(2.0), d(10.0), d(T0), 1, "", &answers)
    };
    match go(vec![]) {
        Paired::Waiting(w) => {
            assert!(matches!(w.ask, Some(hk::Ask::Target(_, _))));
            assert!(w.journal.rows().is_empty());
        }
        other => panic!("{other:?}"),
    }
    match go(vec![hk::Answer::Number(d(11.0))]) {
        Paired::Waiting(w) => {
            assert_eq!(w.journal.rows().len(), 1);
            assert_eq!(w.journal.rows()[0].status, "pending");
            assert!(matches!(w.ask, Some(hk::Ask::LimitSell(_, _, _, _, _))));
        }
        other => panic!("{other:?}"),
    }
    match go(vec![hk::Answer::Number(d(11.0)), hk::Answer::Placed(placed("7", ""))]) {
        Paired::Placed(w, o) => {
            assert_eq!(w.journal.rows()[0].status, "open");
            assert_eq!(w.journal.rows()[0].order_id.as_deref(), Some("7"));
            assert_eq!(o.text, "LIMIT SELL placed @ $11");
            assert!(!o.hk);
        }
        other => panic!("{other:?}"),
    }
    match go(vec![hk::Answer::Number(d(11.0)), hk::Answer::Failed("no funds".into())]) {
        Paired::Placed(w, o) => {
            assert_eq!(w.journal.rows()[0].status, "error");
            assert_eq!(w.journal.rows()[0].last_error.as_deref(), Some("no funds"));
            assert_eq!(o.text, "LIMIT-SELL FAILED (auto-retries next runs): no funds");
        }
        other => panic!("{other:?}"),
    }
}

#[test]
fn a_failed_sell_is_retried_five_times_at_most() {
    let fresh = hk::retry_failed_limit_sells(books(vec![sell("a", "error")]), &vec![]);
    assert!(fresh.ask.is_some());
    let mut tired = sell("a", "error");
    tired.retries = Some(5);
    let w = hk::retry_failed_limit_sells(books(vec![tired]), &vec![]);
    assert!(w.ask.is_none());
}

#[test]
fn rows_are_written_under_their_ids() {
    let j = book(vec![sell("a", "open"), sell("b", "open")]);
    let j = journal::put_row(j, sell("a", "filled"));
    assert_eq!(j.rows().len(), 2);
    assert_eq!(j.rows()[0].status, "filled");
    let j = journal::put_row(j, sell("c", "open"));
    assert_eq!(j.rows()[2].client_id, "c");
    assert!(journal::has_row(&j, "b"));
    assert!(journal::row_of_id(&j, "x").is_none());
    let j = journal::change_row(j, sell("x", "open"));
    assert!(!j.has("x"), "a row that is not there is not changed");
    let mut keyed = Journal::default();
    keyed.orders.insert("key".into(), sell("a", "open"));
    assert!(keyed.has("key") && !keyed.has("a"), "a row is found under its key");
}

#[test]
fn a_blocked_run_trades_nothing() {
    let ctx = RunCtx { now: d(T0), blocked: true, market: None, trailing: vec![], policy: vec![] };
    let (bal, _) = hk::fetch_balances(&Ok(vec![]), &Ok(vec![]), &Ok(vec![]), "live");
    let w = hk::run(&Settings::default(), &ctx, &bal, &vec![], &vec![], books(vec![sell("a", "error")]), &vec![]);
    assert!(w.ask.is_none());
    assert_eq!(w.journal.rows()[0].status, "error");
}

#[test]
fn the_first_run_only_writes_a_snapshot() {
    let book = vec![("AAA".to_string(), Balance { free: d(5.0), locked: d(1.0) })];
    let (bal, out) = hk::fetch_balances(&Err("down".into()), &Ok(book), &Ok(vec![]), "live");
    assert_eq!(out.len(), 1);
    assert_eq!(out[0].text, "binance balances: down");
    assert_eq!(f(bal.free("gate", "AAA")), 5.0);
    assert_eq!(bal.failed, ["binance"]);
    let mut s = Settings::default();
    s.routing = vec![Route { sym: "AAA".into(), exch: "gate".into(), pair: "AAA_USDT".into(), quote: "USDT".into() }];
    let w = hk::detect_drift(&s, d(T0), &bal, books(vec![]), &vec![]);
    assert!(w.ask.is_none() && w.out.is_empty());
    assert!(w.ladder.get("_bal").unwrap().get("booked").is_some());
}

#[test]
fn a_refused_reprice_restores_the_cover() {
    let ctx = RunCtx { now: d(T0), blocked: false, market: None, trailing: vec![], policy: vec![] };
    let go = |n: usize, booked: Option<f64>| {
        let mut o = sell("csAAAs900000r1", "open");
        o.order_id = Some("9".into());
        let mut w = books(vec![o]);
        w.ladder = obj(vec![("AAA", obj(vec![("cost_basis", num(12.0))]))]);
        let mut settled = sell("csAAAs900000r1", "canceled");
        settled.filled_base = booked.map(d);
        let mut answers = vec![
            hk::Answer::Number(d(30.0)),
            hk::Answer::Number(d(13.2)),
            hk::Answer::Done,
            hk::Answer::Done,
            hk::Answer::Settled(settled, booked.is_some()),
            hk::Answer::Failed("too high".into()),
            hk::Answer::Placed(placed("10", "")),
        ];
        answers.truncate(n);
        hk::manage_resting_sells(&Settings::default(), &ctx, w, &answers)
    };
    assert!(matches!(go(0, None).ask, Some(hk::Ask::TtlDays(..))));
    assert!(matches!(go(3, None).ask, Some(hk::Ask::Cancel(..))));
    let w = go(5, None);
    match &w.ask {
        Some(hk::Ask::LimitSell(_, _, base, price, cid)) => {
            assert_eq!((f(*base), f(*price), cid.as_str()), (2.0, 13.2, "csAAAs900000r1u44444"));
        }
        other => panic!("{other:?}"),
    }
    assert_eq!(w.journal.rows()[0].note.as_deref(), None, "as settling left it");
    assert_eq!(w.journal.rows()[1].status, "pending");
    let w = go(6, None);
    match &w.ask {
        Some(hk::Ask::LimitSell(_, _, base, price, cid)) => {
            assert_eq!((f(*base), f(*price), cid.as_str()), (2.0, 11.0, "csAAAs900000r1v44444"));
        }
        other => panic!("{other:?}"),
    }
    let w = go(7, None);
    assert!(w.ask.is_none());
    let rows = w.journal.rows();
    let seen: Vec<(&str, &str)> = rows.iter().map(|r| (r.client_id.as_str(), r.status.as_str())).collect();
    assert_eq!(
        seen,
        [("csAAAs900000r1", "canceled"), ("csAAAs900000r1u44444", "canceled"), ("csAAAs900000r1v44444", "open")]
    );
    assert_eq!(
        w.out[0].text,
        "reprice to $13.2 rejected (too high); cover RESTORED at $11 -- position is protected, retries next run"
    );
    match go(5, Some(0.5)).ask {
        Some(hk::Ask::LimitSell(_, _, base, _, _)) => assert_eq!(f(base), 1.5, "only what is still held"),
        other => panic!("{other:?}"),
    }
    assert!(go(5, Some(2.0)).ask.is_none(), "all of it was sold");
}

#[test]
fn a_stale_order_is_flagged_when_it_is_due() {
    let old = || hk::put_flag(hk::TtlWarned::default(), "old", d(1.0));
    let open = vec!["c".to_string()];
    let (same, said) = hk::ttl_should_warn(old(), "c", d(T0), Some(&open), false);
    assert!(!said);
    assert_eq!(hk::flag_of(&same, "old"), Some(d(1.0)));
    let (next, said) = hk::ttl_should_warn(old(), "c", d(T0), Some(&open), true);
    assert!(said);
    assert_eq!(hk::flag_of(&next, "c"), Some(d(T0)));
    assert_eq!(next.flags.len(), 1, "flags of orders no longer open are dropped");
    let (both, _) = hk::ttl_should_warn(old(), "c", d(T0), None, true);
    assert_eq!(both.flags.len(), 2);
}

// ------------------------------------------------------------------ deploy

fn config() -> Config {
    Config {
        deploy: "live".into(),
        live_trading_enabled: true,
        halt_file: None,
        deploy_min_usd: d(10.0),
        deploy_max_tranche_usd: d(500.0),
        deploy_max_depth_pct: d(60.0),
        deploy_pin_prices: true,
        deploy_sweep_idle: true,
        deploy_bull_sweep: true,
        deploy_bull_sweep_days: d(14.0),
        deploy_bull_sweep_max_age: d(10.0),
        deploy_alloc: vec![("AAA".into(), d(0.6)), ("BBB".into(), d(0.4))],
        deploy_zones: vec![("AAA".into(), Zones { depths: vec![d(10.0)], weights: vec![d(1.0)] })],
        routing: vec![
            Route { sym: "AAA".into(), exch: "gate".into(), pair: "AAA_USDT".into(), quote: "USDT".into() },
            Route { sym: "BBB".into(), exch: "revx".into(), pair: "BBB-USD".into(), quote: "USD".into() },
        ],
        revx_pairs: vec![("AAA".into(), "AAA-USD".into())],
    }
}

fn zone(cid: &str, status: &str, ts: f64) -> Order {
    let mut o = Order::new(cid);
    o.sym = "AAA".into();
    o.exch = "gate".into();
    o.pair = "AAA_USDT".into();
    o.side = "buy".into();
    o.kind = "deploy_buy".into();
    o.status = status.into();
    o.rung = Some(1);
    o.price = Some(d(8.0));
    o.base = Some(d(2.0));
    o.quote = Some(d(16.0));
    o.ts = Some(d(ts));
    o
}

#[test]
fn coins_are_routed_to_their_venues() {
    let c = config();
    assert_eq!(deploy::pair_for(&c, "gate", "AAA").unwrap(), "AAA_USDT");
    assert_eq!(deploy::venue_syms(&c, "gate"), ["AAA"]);
    assert_eq!(deploy::quote_of(&c, "gate"), "USDT");
    assert_eq!(f(deploy::alloc_weight(&c, "BBB")), 0.4);
    assert!(deploy::blocked(&c).is_none());
    let mut off = config();
    off.live_trading_enabled = false;
    assert!(deploy::blocked(&off).is_some());
    let mut halted = config();
    halted.halt_file = Some("/h".into());
    assert!(deploy::blocked(&halted).unwrap().contains("/h"));
    assert!(deploy::in_only(None, "AAA"));
    assert!(!deploy::in_only(Some(&vec!["BBB".to_string()]), "AAA"));
}

#[test]
fn a_blocked_layer_places_nothing() {
    let mut c = config();
    c.live_trading_enabled = false;
    let w = deploy::work_on(book(vec![]), Json::obj());
    let t = cli::tranche(w, &c, d(50.0), "gate", None, &vec![]);
    assert!(t.work.ask.is_none());
    assert!(t.error.is_some());
    let said = deploy::work_on(book(vec![]), obj(vec![("blocked", Json::Bool(true))]));
    let w = check::check(said, &c, &vec![]);
    assert!(w.ask.is_none() && w.out.is_empty(), "a blocked layer says so once");
}

#[test]
fn a_share_is_a_percentage_and_a_venue_is_known() {
    let c = config();
    for share in [0.0, -5.0, 100.5, f64::NAN] {
        let m = cli::market(deploy::work_on(book(vec![]), Json::obj()), &c, d(share), "gate", "AAA", &vec![]);
        assert!(m.work.ask.is_none(), "{share}");
        assert!(m.error.is_some(), "{share}");
    }
    let x = cli::cancel(deploy::work_on(book(vec![]), Json::obj()), &c, Some("kraken"), "/h", &vec![]);
    assert!(x.error.is_some());
    assert_eq!(cli::parse_num(" 5 ", "usd").unwrap(), d(5.0));
    assert_eq!(cli::parse_num("nan", "usd").unwrap_err(), "usd: \"nan\" is not a finite number");
    assert_eq!(cli::parse_num("", "usd").unwrap_err(), "usd: cannot parse float from empty string");
    assert_eq!(cli::parse_num("x", "usd").unwrap_err(), "usd: invalid float literal");
}

#[test]
fn a_journaled_rung_is_sent_as_it_is_journaled() {
    let c = config();
    let o = zone("z1", "pending", T0);
    let w = placing::place_unplaced(deploy::work_on(book(vec![o]), Json::obj()), &c, &vec!["z1".to_string()], &vec![]);
    match w.ask {
        Some(deploy::Ask::LimitBuy(exch, pair, base, price, cid)) => {
            assert_eq!((exch.as_str(), pair.as_str(), cid.as_str()), ("gate", "AAA_USDT", "z1"));
            assert_eq!((f(base), f(price)), (2.0, 8.0));
        }
        other => panic!("{other:?}"),
    }
    let w = placing::place_unplaced(deploy::work_on(book(vec![]), Json::obj()), &c, &vec!["z1".to_string()], &vec![]);
    assert!(w.ask.is_none(), "what is not journaled is not sent");
}

#[test]
fn only_old_zones_are_swept() {
    let now = T0 + 20.0 * 86_400.0;
    let mut old = zone("old", "open", T0);
    old.order_id = Some("1".into());
    let mut new = zone("new", "open", now - 86_400.0);
    new.order_id = Some("2".into());
    let rows = vec![old, new, zone("unsent", "pending", T0)];
    let stale = bull::stale_zones(&rows, d(now), d(14.0));
    assert_eq!(stale.len(), 1);
    assert_eq!(stale[0].client_id, "old");
    assert_eq!(bull::stale_groups(&stale), [("gate".to_string(), "AAA".to_string())]);
    let reg = obj(vec![("coins", obj(vec![("AAA", obj(vec![("running", Json::Bool(true))]))]))]);
    assert!(bull::is_running(&reg, "AAA"));
    assert!(!bull::is_running(&reg, "BBB"));
}

#[test]
fn an_audit_is_clean_exactly_without_findings() {
    let rows = vec![];
    let good = Reading { exch: "gate".into(), book: vec![], open: vec![], error: None };
    let (_, s) = audit::run(&vec![good], &rows, d(T0));
    assert!(s.ok && s.findings.is_empty());
    let bad = Reading { exch: "gate".into(), book: vec![], open: vec![], error: Some("down".into()) };
    let (out, s) = audit::run(&vec![bad], &rows, d(T0));
    assert!(!s.ok);
    assert_eq!(s.findings.len(), 1);
    assert!(s.findings[0].contains("down"), "{}", s.findings[0]);
    assert!(!out.is_empty());
    assert_eq!(audit::state_json(&s).get("ok").unwrap().dumps(None), "false");
}

#[test]
fn churn_counts_rolls_per_fill() {
    let mut rolled = zone("r", "canceled", T0);
    rolled.note = Some("rolled into a new tranche".into());
    rolled.status_ts = Some(d(T0 + 7200.0));
    let m = churn::metrics(&vec![rolled, zone("p", "open", T0)], d(T0 + 8000.0), 7);
    assert_eq!(m.window_days, 7);
    assert_eq!(m.rungs_placed, 2);
    assert!(churn::summary(&m).starts_with("CHURN 7d: "), "{}", churn::summary(&m));
    assert_eq!(churn::metrics_json(&m).get("window_days").unwrap().dumps(None), "7");
}

fn day(i: i64, low: f64, close: f64) -> Day {
    Day { date: Json::Int(i), high: d(close), low: d(low), close: d(close) }
}

#[test]
fn odds_are_how_often_a_dip_came() {
    assert_eq!(fillodds::source_files("AAA"), ["binance_AAAUSDT.json", "gate_AAA_USDT.json"]);
    let s: Vec<Day> = (0..40).map(|i| day(i, if i == 35 { 9.0 } else { 10.0 }, 10.0)).collect();
    let (hits, n) = fillodds::odds(&s, d(-0.05), 2, None);
    assert_eq!((hits, n), (2, 8), "two of eight days saw the dip within two days");
    let mut keep = vec![true; 40];
    keep[33] = false;
    assert_eq!(fillodds::odds(&s, d(-0.05), 2, Some(&keep)), (1, 7));
    let best = fillodds::longest_series(&vec![
        vec![],
        vec![vec![Json::Int(1), num(1.0), num(3.0), num(0.5), num(2.0)]],
    ])
    .unwrap();
    assert_eq!(best.len(), 1);
    assert_eq!((f(best[0].high), f(best[0].low), f(best[0].close)), (3.0, 0.5, 2.0));
    assert!(fillodds::longest_series(&vec![vec![vec![Json::Int(1)]]]).is_err());
    assert_eq!(fillodds::open_buys(&vec![zone("z", "open", T0)]).len(), 1);
}
