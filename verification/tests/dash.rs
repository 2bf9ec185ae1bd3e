use rungbot::dashboard;
use rungbot::dashboard::net::NetError;
use rungbot::dashboard::scenarios;
use rungbot::dashboard::snapshot;
use rungbot::dashboard::snapshot::{Card, Gathered, Quoted, SellCheck, SnapshotConfig};
use rungbot::dashboard::wallets;
use rungbot::dashboard::wallets::Books;
use rungbot::dashboard::{
    c_date, cycle, deploy_step, deploy_update, iso_seconds, py_sum, soft_failure, BtcWallet,
    CosmosWallet, Cycle, CycleAnswer, CycleAsk, DashConfig, DeployStep, Leg, Num, Parts, VaultWallet, WalletSpec,
};
use rungbot::double::Double;
use rungbot::housekeeping::Route;
use rungbot::venue::Balance;
use rungbot::watch::json::{obj, Json};

fn d(x: f64) -> Double {
    Double { bits: x.to_bits() }
}

fn f(x: Double) -> f64 {
    f64::from_bits(x.bits)
}

fn num(x: f64) -> Json {
    Json::Float(d(x))
}

fn config() -> DashConfig {
    dashboard::defaults("/state", "/cache", "2024-01-01")
}

#[test]
fn python_sum_keeps_ints_until_a_float_joins() {
    assert_eq!(py_sum(&Vec::<Num>::new()), Num::Whole(0));
    assert_eq!(py_sum(&vec![Num::Whole(2), Num::Whole(3)]), Num::Whole(5));
    assert_eq!(py_sum(&vec![Num::Whole(1), Num::Frac(d(0.5))]), Num::Frac(d(1.5)));
    assert_eq!(py_sum(&vec![Num::Frac(d(0.1)); 10]), Num::Frac(d(1.0)));
}

#[test]
fn the_c_locale_date_pads_the_day() {
    assert_eq!(c_date(d(1_725_408_000.0)), "Wed Sep  4 00:00:00 UTC 2024");
    assert_eq!(c_date(d(1_735_000_000.25)), "Tue Dec 24 00:26:40 UTC 2024");
}

#[test]
fn errors_read_as_the_reference_printed_them() {
    assert_eq!(NetError::Status(500).text(), "HTTP Error 500: Internal Server Error");
    assert_eq!(NetError::Status(429).typed(), "HTTPError: HTTP Error 429: Too Many Requests");
    assert_eq!(NetError::Url("down".into()).typed(), "URLError: <urlopen error down>");
}

#[test]
fn splitlines_matches_python() {
    assert_eq!(snapshot::splitlines("a\nb\r\nc\rd"), vec!["a", "b", "c", "d"]);
    assert_eq!(snapshot::splitlines("a\n"), vec!["a"]);
    assert_eq!(snapshot::splitlines(""), Vec::<&str>::new());
    assert_eq!(snapshot::splitlines("a\u{2028}b\u{0b}\u{85}"), vec!["a", "b", ""]);
}

#[test]
fn failed_deploys_alert_on_the_third_and_every_twelfth() {
    let mut file: Option<Json> = None;
    let mut alerts = Vec::new();
    for n in 1..=27 {
        let (st, alert) = deploy_update(file.as_ref(), false, d(n as f64));
        if alert {
            alerts.push(n);
        }
        file = Some(st);
    }
    assert_eq!(alerts, [3, 15, 27]);
    let (st, alert) = deploy_update(file.as_ref(), true, d(99.0));
    assert!(!alert);
    assert_eq!(st.get("consecutive_failures").unwrap().dumps(None), "0");
}

fn printed(c: &Cycle) -> Vec<(bool, &str)> {
    c.lines.iter().map(|l| (l.err, l.text.as_str())).collect()
}

#[test]
fn a_cycle_runs_its_parts_in_order() {
    let all = Parts::default();
    let mut answers = Vec::new();
    let mut asked = Vec::new();
    let third = obj(vec![("consecutive_failures", Json::Int(2))]);
    let c = loop {
        let c = cycle(all, Some("make site"), true, &answers);
        let a = match &c.ask {
            None => break c,
            Some(CycleAsk::Clock) => CycleAnswer::Time(d(0.0)),
            Some(CycleAsk::Data) => CycleAnswer::Done,
            Some(CycleAsk::Scenarios) => CycleAnswer::Failed("no cache".into()),
            Some(CycleAsk::Wallets) => CycleAnswer::Done,
            Some(CycleAsk::Deploy(cmd)) => {
                assert_eq!(cmd, "make site");
                CycleAnswer::Deployed(false)
            }
            Some(CycleAsk::Status) => CycleAnswer::File(Some(third.copy())),
            Some(CycleAsk::Save(st)) => {
                assert_eq!(st.get("consecutive_failures").unwrap().dumps(None), "3");
                CycleAnswer::Done
            }
        };
        asked.push(match c.ask {
            Some(CycleAsk::Clock) => "clock",
            Some(CycleAsk::Data) => "data",
            Some(CycleAsk::Scenarios) => "scenarios",
            Some(CycleAsk::Wallets) => "wallets",
            Some(CycleAsk::Deploy(_)) => "deploy",
            Some(CycleAsk::Status) => "status",
            Some(CycleAsk::Save(_)) => "save",
            None => "nothing",
        });
        answers.push(a);
    };
    assert_eq!(asked, ["clock", "data", "scenarios", "wallets", "deploy", "clock", "status", "save"]);
    assert_eq!(c.code, Some(1));
    assert_eq!(
        printed(&c)[1..],
        [
            (true, "scenarios: no cache"),
            (false, "scenarios failed (snapshot still deployed)"),
            (false, "deploy failed (snapshot still regenerated)"),
            (false, "deploy failed 3x in a row"),
            (false, "deploy failure streak -> alerting"),
        ]
    );
}

#[test]
fn a_failed_snapshot_ends_the_cycle() {
    let answers = vec![CycleAnswer::Time(d(0.0)), CycleAnswer::Failed("no balances".into())];
    let c = cycle(Parts::default(), Some("x"), true, &answers);
    assert!(c.ask.is_none());
    assert_eq!(c.code, Some(1));
    assert_eq!(
        printed(&c),
        [(false, "[Thu Jan  1 00:00:00 UTC 1970] snapshot"), (true, "snapshot failed: no balances")]
    );
    let none = Parts { data: false, scenarios: false, wallets: false, deploy: false };
    let c = cycle(none, Some("x"), true, &vec![CycleAnswer::Time(d(0.0))]);
    assert_eq!((c.code, c.lines.len()), (Some(0), 1));
    let last = Parts { deploy: true, ..none };
    let c = cycle(last, None, true, &vec![CycleAnswer::Time(d(0.0))]);
    assert_eq!(c.code, Some(0));
    assert_eq!(
        printed(&c)[1].1,
        "deploy skipped: dashboard.deploy_command is not set (data.json regenerated locally only)"
    );
}

#[test]
fn a_deploy_needs_a_command_and_the_switch() {
    let all = Parts::default();
    assert!(matches!(deploy_step(all, Some("x"), true), DeployStep::Run(_)));
    assert!(matches!(deploy_step(all, None, true), DeployStep::Skip(_)));
    assert!(matches!(deploy_step(all, Some("x"), false), DeployStep::Skip(_)));
    let none = Parts { deploy: false, ..all };
    assert!(matches!(deploy_step(none, Some("x"), true), DeployStep::Nothing));
    let (err, out) = soft_failure("wallets", "down");
    assert_eq!(err, "wallets: down");
    assert_eq!(out, "wallets failed (snapshot still deployed)");
    assert_eq!(iso_seconds("2024-09-04T00:00:00.123456+00:00"), "2024-09-04T00:00:00+00:00");
}

#[test]
fn the_block_and_the_environment_override_the_defaults() {
    let c = config();
    assert_eq!(c.data_path(), "/state/dashboard/public/data.json");
    assert_eq!(c.deploy_status_path(), "/state/dashboard/.deploy-status.json");
    let block = obj(vec![
        ("public_dir", Json::text("/pub")),
        ("scenario_slip_pct", num(0.2)),
        ("wallet_lead_pct", num(40.0)),
    ]);
    let got = dashboard::from_run_env(c, &block, &vec![("WALLET_LEAD_PCT".into(), "25".into())]).unwrap();
    assert_eq!(got.public_dir, "/pub");
    assert_eq!(f(got.scenarios.slip_pct), 0.2);
    assert_eq!(f(got.wallets.lead_pct), 25.0);
    let unknown = obj(vec![("no_such_knob", Json::Int(1))]);
    assert!(dashboard::from_run_env(config(), &unknown, &vec![]).is_err());
}

// ------------------------------------------------------------------ the account

fn ticker(sym: &str, bid: &str, ask: &str) -> Json {
    obj(vec![("symbol", Json::text(sym)), ("bid", Json::text(bid)), ("ask", Json::text(ask))])
}

fn account(last: Vec<snapshot::Answer>) -> snapshot::Account {
    let hdr = || snapshot::Answer::Headers(vec![("X-Revx-API-Key".to_string(), "k".to_string())]);
    let bal = Json::Arr(vec![
        obj(vec![
            ("currency", Json::text("USD")),
            ("available", Json::text("10")),
            ("reserved", Json::text("5")),
            ("total", Json::text("15")),
        ]),
        obj(vec![
            ("currency", Json::text("AAA")),
            ("available", num(2.0)),
            ("reserved", num(0.0)),
            ("total", num(2.0)),
        ]),
        obj(vec![("currency", Json::text("ZZZ")), ("total", Json::Int(0))]),
    ]);
    let act = obj(vec![(
        "data",
        Json::Arr(vec![
            obj(vec![
                ("symbol", Json::text("AAA/USD")),
                ("side", Json::text("buy")),
                ("price", Json::text("8")),
                ("quantity", Json::text("1.5")),
                ("created_date", Json::Int(1_700_000_000_000)),
            ]),
            obj(vec![("symbol", Json::text("AAA/USD")), ("price", Json::text("9")), ("quantity", Json::text("1"))]),
        ]),
    )]);
    let tick = obj(vec![(
        "data",
        Json::Arr(vec![ticker("AAA/USD", "9", "11"), ticker("USDC/EUR", "0.9", "0.9"), ticker("BBB/USD", "", "1")]),
    )]);
    let mut answers = vec![
        snapshot::Answer::Time(d(1_700_000_000.5)),
        hdr(),
        snapshot::Answer::Value(bal),
        snapshot::Answer::Done,
        snapshot::Answer::Time(d(1_700_000_001.0)),
        hdr(),
        snapshot::Answer::Value(act),
        snapshot::Answer::Done,
        snapshot::Answer::Value(tick),
    ];
    answers.extend(last);
    snapshot::revx_read(&answers)
}

#[test]
fn the_account_is_read_step_by_step() {
    let first = snapshot::revx_read(&vec![]);
    assert!(matches!(first.ask, Some(snapshot::Ask::Now)));
    let second = snapshot::revx_read(&vec![snapshot::Answer::Time(d(1.5))]);
    match second.ask {
        Some(snapshot::Ask::Auth(path, ts)) => {
            assert_eq!(path, "/api/1.0/balances");
            assert_eq!(ts, 1500);
        }
        other => panic!("{other:?}"),
    }
    let a = account(vec![snapshot::Answer::Time(d(1_700_000_002.0))]);
    assert!(a.ask.is_none());
    assert_eq!(a.out.get("total_value").unwrap().dumps(None), "35.0");
    assert_eq!(a.out.get("hold_value").unwrap().dumps(None), "20.0");
    assert_eq!(a.out.get("usd_free").unwrap().dumps(None), "10.0");
    assert!(a.out.get("balances").unwrap().get("ZZZ").is_none());
    let rows = match a.out.get("orders").unwrap() {
        Json::Arr(r) => r,
        other => panic!("{other:?}"),
    };
    assert_eq!(rows[0].get("price").unwrap().dumps(None), "9.0", "the dearest first");
    assert_eq!(rows[1].get("ts").unwrap().dumps(None), "1700000000.0");
    assert_eq!(rows[0].get("ts").unwrap().dumps(None), "null");
    assert_eq!(rows[1].get("usd").unwrap().dumps(None), "12.0");
    let cache = a.cache.unwrap();
    assert_eq!(cache.get("ts").unwrap().dumps(None), "1700000002.0");
}

#[test]
fn a_limited_read_is_tried_once_more() {
    let hdr = || snapshot::Answer::Headers(vec![]);
    let mut answers = vec![snapshot::Answer::Time(d(1.0)), hdr(), snapshot::Answer::Broken(NetError::Status(429))];
    assert!(matches!(snapshot::revx_read(&answers).ask, Some(snapshot::Ask::Sleep(_))));
    answers.push(snapshot::Answer::Done);
    answers.push(snapshot::Answer::Time(d(3.0)));
    answers.push(hdr());
    answers.push(snapshot::Answer::Broken(NetError::Status(429)));
    answers.push(snapshot::Answer::Time(d(2000.0)));
    let old = obj(vec![("ts", num(100.0)), ("data", Json::obj())]);
    answers.push(snapshot::Answer::Value(old));
    let a = snapshot::revx_read(&answers);
    assert!(a.ask.is_none());
    assert_eq!(
        a.out.get("error").unwrap().as_str(),
        Some("HTTPError: HTTP Error 429: Too Many Requests")
    );
}

#[test]
fn a_fresh_reading_stands_in_for_a_failed_one() {
    let kept = obj(vec![("ts", num(1000.0)), ("data", obj(vec![("usd_free", num(1.0))]))]);
    let got = snapshot::from_cache(Some(&kept), "down", d(1090.9));
    assert_eq!(got.get("stale_s").unwrap().dumps(None), "90");
    let late = snapshot::from_cache(Some(&kept), "down", d(2800.0));
    assert_eq!(late.dumps(None), "{\"error\": \"down\"}");
    assert_eq!(snapshot::from_cache(None, "down", d(0.0)).dumps(None), "{\"error\": \"down\"}");
    assert_eq!(f(snapshot::revx_cache_max_s()), 1800.0);
}

// ------------------------------------------------------------------ the snapshot

fn route(sym: &str, exch: &str) -> Route {
    Route { sym: sym.into(), exch: exch.into(), pair: format!("{sym}_USDT"), quote: "USDT".into() }
}

fn snapshot_config() -> SnapshotConfig {
    SnapshotConfig {
        watchlist: vec!["AAA".into(), "BBB".into()],
        routing: vec![route("AAA", "gate")],
        entries: vec![("AAA".into(), d(10.0))],
        target_pct: d(100.0),
        first_pct: d(5.0),
        deploy_alloc: vec![("aaa".into(), d(1.0))],
        trade_mode: "live".into(),
        live_trading_enabled: true,
    }
}

fn gathered() -> Gathered {
    let journal = obj(vec![
        ("a", obj(vec![("client_id", Json::text("a")), ("sym", Json::text("AAA")), ("side", Json::text("sell")), ("status", Json::text("filled")), ("filled_quote", num(50.0)), ("ts", num(100.0))])),
        ("b", obj(vec![("client_id", Json::text("depx1")), ("sym", Json::text("AAA")), ("status", Json::text("open")), ("ts", num(300.0)), ("last_error", Json::text("x"))])),
        ("c", obj(vec![("client_id", Json::text("c")), ("sym", Json::text("AAA")), ("status", Json::text("filled")), ("ts", num(200.0))])),
    ]);
    let now = 1_725_408_000.0 + 3600.0;
    let rec = |kind: &str, sym: &str, ts: f64| {
        obj(vec![
            ("kind", Json::text(kind)),
            ("sym", Json::text(sym)),
            ("text", Json::text("t")),
            ("ts", num(ts)),
            ("src", Json::text("s")),
        ])
    };
    Gathered {
        state: obj(vec![("AAA", obj(vec![("win_until", num(now + 1.0)), ("win_dir", Json::text("buy"))]))]),
        journal,
        now: d(now),
        no_clients: None,
        gate: Ok(vec![
            ("AAA".into(), Balance { free: d(2.0), locked: d(0.0) }),
            ("USDT".into(), Balance { free: d(30.0), locked: d(10.0) }),
        ]),
        prices: Ok(vec![Quoted { sym: "AAA".into(), price: d(15.0), chg: d(-2.0) }]),
        revx: obj(vec![
            ("balances", obj(vec![("USD", obj(vec![("total", num(100.0)), ("reserved", num(40.0))]))])),
            ("orders", Json::Arr(vec![obj(vec![("sym", Json::text("AAA"))])])),
            ("eur_usd", Json::Null),
            ("stale_s", Json::Int(125)),
        ]),
        orders: Ok(vec![]),
        recs: vec![rec("run", "AAA", now - 10.0), rec("skip", "AAA", now - 20.0), rec("buy", "AAA", now - 9.0)],
        has_manual: true,
        manual: Ok(Json::Arr(vec![obj(vec![("status", Json::text("filled")), ("ts", num(500.0)), ("sym", Json::text("M"))])])),
        halted: false,
        last_run: None,
        deploy: None,
        audit: None,
        regime: Err("no candles".into()),
        generated: "2024-09-04T01:00:00".into(),
    }
}

fn card() -> Card {
    Card {
        gate_stable: d(40.0),
        gate_target: d(50.0),
        gate_share_pct: d(30.0),
        gate_gap: d(10.0),
        revx_stable: d(100.0),
        deposit_headroom: d(0.0),
        reserved_on_revx: d(0.0),
        revx_sendable: d(0.0),
        in_flight: false,
        due: true,
        send_now: d(0.0),
        revx_usdc_free: d(0.0),
    }
}

#[test]
fn a_snapshot_holds_the_book() {
    let (cfg, g, c) = (snapshot_config(), gathered(), config());
    let qs = snapshot::sell_queries(&cfg, &g).unwrap();
    assert_eq!(qs.len(), 1);
    assert_eq!((qs[0].sym.as_str(), f(qs[0].held)), ("AAA", 2.0));
    let q = snapshot::card_query(&cfg, &g).unwrap();
    assert_eq!((f(q.revx_stable), f(q.gate_stable)), (100.0, 40.0));
    assert_eq!(q.alloc[0].0, "AAA");
    let checks = vec![(
        "AAA".to_string(),
        SellCheck { ok: true, reason: "ok".into(), qty: d(2.0), min_base: None, min_quote: None, notional: d(30.0) },
    )];
    let b = snapshot::run(&cfg, &c, &g, &checks, Some(card()));
    assert!(b.fault.is_none());
    let s = b.snapshot.unwrap();
    let p = s.get("portfolio").unwrap();
    assert_eq!(p.get("total_value").unwrap().dumps(None), "30.0");
    assert_eq!(p.get("stable_bag").unwrap().dumps(None), "140.0");
    assert_eq!(p.get("stable_locked").unwrap().dumps(None), "50.0");
    assert_eq!(p.get("unrealized_pnl").unwrap().dumps(None), "10.0");
    assert_eq!(p.get("realized_proceeds").unwrap().dumps(None), "50.0");
    let coins = match s.get("coins").unwrap() {
        Json::Arr(c) => c,
        other => panic!("{other:?}"),
    };
    assert_eq!(coins[0].get("sym").unwrap().as_str(), Some("AAA"), "the nearest to its target first");
    assert_eq!(coins[0].get("venues").unwrap().dumps(None), "[\"gate\", \"revx\"]");
    assert_eq!(coins[0].get("to_sell_pct").unwrap().dumps(None), "-25.0");
    assert_eq!(coins[0].get("to_buy_pct").unwrap().dumps(None), "3.0");
    assert_eq!(coins[0].get("win_dir").unwrap().as_str(), Some("buy"));
    assert_eq!(coins[0].get("decision").unwrap().get("kind").unwrap().as_str(), Some("buy"));
    assert_eq!(coins[1].get("sell_ready").unwrap().get("reason").unwrap().as_str(), Some("no None client"));
    assert_eq!(
        s.get("decisions").unwrap().dumps(None),
        "{\"today\": {\"skip\": 1, \"buy\": 1}, \"journal_errors\": 0, \"poll_errors\": 1}"
    );
    let log = match s.get("order_log").unwrap() {
        Json::Arr(c) => c,
        other => panic!("{other:?}"),
    };
    let who: Vec<String> = log.iter().map(|r| r.get("sym").unwrap().py_str()).collect();
    assert_eq!(who, ["AAA", "M", "AAA", "AAA"], "resting first, then fills from the latest");
    assert_eq!(log[0].get("venue").unwrap().as_str(), Some("revx"));
    assert_eq!(log[2].get("venue").unwrap().as_str(), Some("gate"));
    assert_eq!(s.get("regime").unwrap().dumps(None), "{\"error\": \"no candles\"}");
    let errors = s.get("health").unwrap().get("errors").unwrap().dumps(None);
    assert_eq!(errors, "[\"revx: rate-limited, serving 2m-old cache\"]");
    assert_eq!(b.lines[1], "SELL-CHECK 1/2 sellable; BBB no None client");
    assert!(b.lines[0].starts_with("CHURN 7d: 0 rolls"), "{}", b.lines[0]);
    assert_eq!(
        b.wrote,
        "wrote /state/dashboard/public/data.json | 2 coins | value $30.00 | stable $140.00 (locked $50.00) | errors 1"
    );
}

#[test]
fn an_unread_account_counts_as_empty() {
    let (cfg, c) = (snapshot_config(), config());
    let mut g = gathered();
    g.revx = obj(vec![("error", Json::text("down"))]);
    g.has_manual = false;
    assert!(snapshot::card_query(&cfg, &g).is_none());
    let b = snapshot::run(&cfg, &c, &g, &vec![], None);
    let s = b.snapshot.unwrap();
    assert_eq!(s.get("funding").unwrap().dumps(None), "{\"error\": \"down\"}");
    assert_eq!(s.get("portfolio").unwrap().get("stable_bag").unwrap().dumps(None), "40.0");
}

#[test]
fn decisions_that_cannot_be_read_leave_the_coins() {
    let mut g = gathered();
    g.recs = vec![obj(vec![("sym", Json::text("AAA")), ("ts", Json::text("soon"))])];
    let dec = snapshot::decisions(&g, &vec![], &vec![("AAA".to_string(), Json::obj())]);
    assert_eq!(dec.coins.len(), 1);
    assert!(dec.error.is_some());
    assert_eq!(dec.block.get("today").unwrap().dumps(None), "{}");
    let many = vec![
        obj(vec![("sym", Json::text("AAA")), ("ts", num(1.0))]),
        obj(vec![("sym", Json::text("AAA")), ("ts", num(9.0)), ("kind", Json::text("x"))]),
        obj(vec![("sym", Json::text("AAA")), ("ts", num(9.5)), ("kind", Json::text("run"))]),
    ];
    let last = snapshot::last_per_coin(&many, d(10.0), d(5.0)).unwrap();
    assert_eq!(last.len(), 1);
    assert_eq!(last[0].1.get("kind").unwrap().as_str(), Some("x"));
    assert_eq!(snapshot::counts_since(&many, d(0.0)).unwrap().dumps(None), "{\"null\": 1, \"x\": 1}");
    let shown = |log: &str, n: usize| -> Vec<String> { snapshot::tail(log, n).iter().map(|r| r.dumps(None)).collect() };
    assert_eq!(shown(" {\"a\": 1} \nnoise\n{\"b\": 2}", 2), ["{\"a\": 1}", "{\"b\": 2}"]);
    assert_eq!(shown("{\"a\": 1}\n{\"b\": 2}\nx\n", 2), ["{\"a\": 1}", "{\"b\": 2}"], "oldest first");
    assert_eq!(shown("{\"a\": 1}\n{\"b\": 2}\nx\n", 1), ["{\"b\": 2}"]);
    assert_eq!(shown("{\"a\": 01}\n[1]\n{\"b\": 9223372036854775808}\n", 9), ["{\"b\": 9.223372036854776e+18}"]);
    assert_eq!(snapshot::tail_start(262_145), 1);
    assert_eq!(
        snapshot::read_journal("/j", true, &Ok(Json::Arr(vec![]))).unwrap_err(),
        "/j holds list, expected an object"
    );
    assert!(snapshot::read_journal("/j", false, &Err(String::new())).unwrap().is_obj());
    assert!(snapshot::manual_fills(&Json::Int(1)).unwrap_err().contains("not iterable"));
    assert_eq!(
        snapshot::manual_fills(&Json::text("x")).unwrap_err(),
        "'str' object has no attribute 'get'"
    );
}

#[test]
fn a_regime_block_lists_routed_coins_first() {
    let reg = obj(vec![
        ("market", Json::text("bull")),
        (
            "coins",
            obj(vec![
                ("ZZZ", obj(vec![("error", Json::text("no data"))])),
                (
                    "AAA",
                    obj(vec![
                        ("running", Json::Bool(true)),
                        ("signals", obj(vec![("odd", Json::Int(1)), ("higher_lows", Json::Bool(false)), ("above_sma30", Json::Bool(true))])),
                    ]),
                ),
            ]),
        ),
    ]);
    let hist = obj(vec![("held_days", Json::Int(4)), ("confirmed", Json::Bool(true))]);
    let b = snapshot::regime_block(&vec![route("AAA", "gate")], &Ok((reg, hist)));
    assert_eq!(
        b.get("coins").unwrap().dumps(None),
        "{\"AAA\": {\"running\": true, \"score\": 1, \"signals\": {\"above_sma30\": true, \"higher_lows\": false, \"odd\": true}}, \"ZZZ\": {\"error\": \"no data\"}}"
    );
    assert_eq!(b.get("held_days").unwrap().dumps(None), "4");
    assert!(b.get("prev_label").unwrap().is_null());
}

// ------------------------------------------------------------------ wallets

fn books(price: f64, label: &str) -> Books {
    Books {
        snap: obj(vec![
            ("coins", Json::Arr(vec![obj(vec![("sym", Json::text("ATOM")), ("price", num(price)), ("entry", num(5.0))])])),
            ("regime", obj(vec![("label", Json::text(label)), ("confirmed", Json::Bool(true))])),
            ("portfolio", obj(vec![("total_value", num(100.0))])),
        ]),
        targets: Json::obj(),
        state: Json::obj(),
        last_good: Json::obj(),
    }
}

fn reading() -> Json {
    obj(vec![
        ("liquid", num(1.0)),
        ("staked", num(10.0)),
        ("rewards", num(0.0)),
        ("unbonding", Json::Arr(vec![obj(vec![("amount", num(2.0))])])),
        ("unbond_days", Json::Int(21)),
    ])
}

fn progress() -> wallets::Progress {
    wallets::Progress {
        state: Json::obj(),
        last_good: Json::obj(),
        errors: vec![],
        alerts: vec![],
        rows: vec![],
        fault: None,
    }
}

#[test]
fn a_crossing_is_alerted_once_and_rearmed() {
    let c = config();
    // The first tranche is at 20 and the lead band is 30%: the alert fires from 14.
    let b = books(14.5, "chop");
    let p = wallets::judge_wallet(&c, &b, progress(), "ATOM", &reading(), &Json::obj(), d(1000.5));
    assert_eq!(
        p.alerts,
        ["ATOM: start unbonding 10 staked now. Price $14.5 is inside the 30% lead band of the 4x bot cost rung $20; unlock takes 21d."]
    );
    assert_eq!(p.state.dumps(None), "{\"ATOM\": {\"fired\": true, \"ts\": 1000}}");
    assert_eq!(p.rows[0].get("status").unwrap().as_str(), Some("UNBOND NOW"));
    assert_eq!(p.rows[0].get("trigger").unwrap().dumps(None), "14.0");
    let again = wallets::judge_wallet(&c, &b, p, "ATOM", &reading(), &Json::obj(), d(1001.0));
    assert_eq!(again.alerts.len(), 1, "the same crossing is not mailed twice");
    let near = wallets::judge_wallet(&c, &books(13.0, "chop"), again, "ATOM", &reading(), &Json::obj(), d(1002.0));
    assert_eq!(near.state.get("ATOM").unwrap().get("fired").unwrap().dumps(None), "true");
    let back = wallets::judge_wallet(&c, &books(12.0, "chop"), near, "ATOM", &reading(), &Json::obj(), d(1003.0));
    assert_eq!(back.state.get("ATOM").unwrap().get("fired").unwrap().dumps(None), "false");
}

#[test]
fn trailed_coins_wait_for_a_confirmed_bull() {
    let mut c = config();
    c.wallets.trail_only = vec!["ATOM".into()];
    let p = wallets::judge_wallet(&c, &books(15.0, "chop"), progress(), "ATOM", &reading(), &Json::obj(), d(1.0));
    assert!(p.alerts.is_empty());
    assert_eq!(p.rows[0].get("status").unwrap().as_str(), Some("in band, waits for confirmed bull"));
    let p = wallets::judge_wallet(&c, &books(15.0, "bull"), progress(), "ATOM", &reading(), &Json::obj(), d(1.0));
    assert_eq!(p.alerts.len(), 1);
}

#[test]
fn a_failed_read_serves_the_last_good_one() {
    let c = config();
    let b = books(10.0, "chop");
    let p = wallets::take_reading(&c, &b, progress(), "ATOM", &Err("down".into()), &Json::obj(), d(1.0));
    assert_eq!(p.errors, ["ATOM: down"]);
    assert!(p.rows.is_empty(), "one that never read is left out");
    let p = wallets::take_reading(&c, &b, progress(), "ATOM", &Ok(reading()), &Json::obj(), d(7.9));
    assert_eq!(p.last_good.get("ATOM").unwrap().get("read_ts").unwrap().dumps(None), "7");
    let p = wallets::take_reading(&c, &b, p, "ATOM", &Err("down".into()), &Json::obj(), d(9.0));
    assert_eq!(p.rows[1].get("stale").unwrap().dumps(None), "true");
    let out = wallets::finished(&c, &b, p, "now").unwrap();
    assert_eq!(out.out.get("total_value").unwrap().dumps(None), "260.0");
    assert_eq!(out.out.get("all_holdings").unwrap().dumps(None), "360.0");
    assert!(out.line.starts_with("wrote /state/dashboard/public/wallets.json | 2 wallets | $260.00 | staked 92%"), "{}", out.line);
    assert!(out.line.ends_with("errors 1 (ATOM: down)"), "{}", out.line);
}

fn talk(spec: WalletSpec, answers: Vec<wallets::Answer>) -> Result<Json, String> {
    let t = wallets::Talk { at: 0, ask: None };
    let (t, got) = wallets::read(t, "ATOM", &spec, &answers);
    assert!(t.ask.is_none(), "{:?}", t.ask);
    got
}

#[test]
fn chains_are_read_in_coins() {
    let spec = || WalletSpec::Cosmos(CosmosWallet { chain: "hub".into(), address: "addr".into(), decimals: 6, rest: "https://r".into() });
    let amount = |x: &str| obj(vec![("denom", Json::text("uatom")), ("amount", Json::text(x))]);
    let v = |j: Json| wallets::Answer::Value(j);
    let got = talk(
        spec(),
        vec![
            wallets::Answer::Failed("reset".into()),
            wallets::Answer::Done,
            v(obj(vec![("params", obj(vec![("bond_denom", Json::text("uatom")), ("unbonding_time", Json::text("1814400s"))]))])),
            v(obj(vec![("balances", Json::Arr(vec![amount("1500000"), obj(vec![("denom", Json::text("x")), ("amount", Json::text("9"))])]))])),
            v(obj(vec![("delegation_responses", Json::Arr(vec![obj(vec![("balance", amount("2500000"))])]))])),
            v(obj(vec![("unbonding_responses", Json::Arr(vec![obj(vec![("entries", Json::Arr(vec![obj(vec![("balance", Json::text("250000")), ("completion_time", Json::text("soon"))])]))])]))])),
            v(obj(vec![("total", Json::Arr(vec![amount("1000000.5")]))])),
        ],
    )
    .unwrap();
    assert_eq!(
        got.dumps(None),
        "{\"liquid\": 1.5, \"staked\": 2.5, \"rewards\": 1.0000005, \"unbonding\": [{\"amount\": 0.25, \"done\": \"soon\"}], \"unbond_days\": 21, \"validators\": 1, \"chain\": \"hub\", \"address\": \"addr\"}"
    );
    let missing = talk(spec(), vec![v(Json::obj())]).unwrap_err();
    assert_eq!(missing, "'params'");

    let btc = WalletSpec::Btc(BtcWallet { address: "a".into(), chain: "btc".into(), api: "https://m".into() });
    let got = talk(
        btc,
        vec![v(obj(vec![("chain_stats", obj(vec![("funded_txo_sum", Json::Int(300_000_000)), ("spent_txo_sum", Json::Int(50_000_000))]))]))],
    )
    .unwrap();
    assert_eq!(got.get("liquid").unwrap().dumps(None), "2.5");

    let leg = Leg { label: "Base".into(), rpc: "https://b".into(), token: "0xT".into(), vault: "0xV".into() };
    let vault = WalletSpec::Vault(VaultWallet { address: "0xABCD".into(), chain: "evm".into(), unbond_days: 7, legs: vec![leg] });
    let hex = |x: &str| v(obj(vec![("result", Json::text(x))]));
    let got = talk(vault, vec![hex("0x14d1120d7b160000"), hex("0x8ac7230489e80000"), hex("0x0")]).unwrap();
    assert_eq!(got.get("staked").unwrap().dumps(None), "15.0");
    assert_eq!(
        got.get("note").unwrap().as_str(),
        Some("vATOM 10 on Base at 1.5000 ATOM/vATOM; pending unstake requests not read")
    );
    let t = wallets::Talk { at: 0, ask: None };
    let (t, _) = wallets::get(t, "https://x", None, &vec![]);
    assert!(matches!(t.ask, Some(wallets::Ask::Fetch(_, None))));
}

#[test]
fn a_run_ends_when_it_takes_too_long() {
    let mut c = config();
    c.wallets.list_ = vec![(
        "ATOM".into(),
        WalletSpec::Btc(BtcWallet { address: "a".into(), chain: "btc".into(), api: "https://m".into() }),
    )];
    let b = books(10.0, "chop");
    let w = wallets::run(
        &c,
        &b,
        &vec![
            wallets::Answer::Time(d(0.0)),
            wallets::Answer::Value(Json::obj()),
            wallets::Answer::Time(d(181.0)),
        ],
    );
    assert_eq!(w.fault.as_deref(), Some("timed out after 180s"));
    let w = wallets::run(&c, &b, &vec![wallets::Answer::Time(d(0.0))]);
    match w.ask {
        Some(wallets::Ask::Fetch(url, None)) => assert_eq!(
            url,
            "https://api.coingecko.com/api/v3/simple/price?vs_currencies=usd&ids="
        ),
        other => panic!("{other:?}"),
    }
}

// ------------------------------------------------------------------ scenarios

#[test]
fn the_book_of_a_scenario_is_the_snapshot() {
    let snap = obj(vec![
        (
            "coins",
            Json::Arr(vec![obj(vec![
                ("sym", Json::text("AAA")),
                ("held", num(2.0)),
                ("price", num(10.0)),
                ("entry", Json::Null),
            ])]),
        ),
        ("portfolio", obj(vec![("stable_bag", num(100.0)), ("stable_locked", num(40.0))])),
    ]);
    let b = scenarios::book(&snap, None).unwrap();
    assert_eq!(b.coins[0].sym, "AAA");
    assert_eq!(f(b.coins[0].cost), 10.0, "without a cost the price stands");
    assert_eq!(f(b.cash_free), 60.0);
    let fees = scenarios::Fees { revx: d(0.0), gate: d(0.2), binance: d(0.1) };
    assert_eq!(f(scenarios::fee_pct(&vec![route("AAA", "gate")], fees, None, "AAA")), 0.2);
    assert_eq!(f(scenarios::fee_pct(&vec![route("AAA", "gate")], fees, Some(d(0.5)), "AAA")), 0.5);
    assert_eq!(scenarios::sources_for(&vec![], "AAA")[1].0, "gate_AAA_USDT.json");
    let ath = vec![("AAA".to_string(), d(50.0), "2021-11-10".to_string())];
    let same = scenarios::refresh_ath(ath, Some(&Json::text("limited")));
    assert_eq!(f(same[0].1), 50.0);
    let rows = Json::Arr(vec![obj(vec![
        ("symbol", Json::text("aaa")),
        ("ath", num(60.0)),
        ("ath_date", Json::text("2025-01-02T03:04:05Z")),
    ])]);
    let fresh = scenarios::refresh_ath(same, Some(&rows));
    assert_eq!((f(fresh[0].1), fresh[0].2.as_str()), (60.0, "2025-01-02"));
}
