use rungbot::command;
use rungbot::command::{After, Answer, Args, Ask, Layered, Work};
use rungbot::double::Double;
use rungbot::guard::Caps;
use rungbot::import;
use rungbot::import::RunState;
use rungbot::journal::{Journal, Order, Side};
use rungbot::venue::{Balance, Limits, ParsedOrder};
use rungbot::watch::json::{obj, Json};

fn d(x: f64) -> Double {
    Double { bits: x.to_bits() }
}

fn f(x: Double) -> f64 {
    f64::from_bits(x.bits)
}

fn words(w: &[&str]) -> Vec<String> {
    w.iter().map(|s| s.to_string()).collect()
}

fn entry(sym: &str, rung: i64, pct: f64, price: f64) -> Json {
    obj(vec![
        ("sym", Json::text(sym)),
        ("rung", Json::Int(rung)),
        ("pct", Json::Float(d(pct))),
        ("price", Json::Float(d(price))),
    ])
}

fn plan_json() -> Json {
    obj(vec![
        ("buys", Json::Arr(vec![entry("XYZ", 1, 10.0, 100.0)])),
        ("sells", Json::Arr(vec![entry("ETH", 2, 15.0, 2000.0)])),
    ])
}

#[test]
fn a_plan_becomes_orders_sized_against_the_budget() {
    let map = command::parse_pair_map(Some("XYZ=XYZ_USDT,ETH=ETH_USDT"));
    let got = command::planned_orders(&plan_json(), &map, d(1000.0)).unwrap();
    assert_eq!(got.len(), 2);
    let buy = got.iter().find(|p| p.side == Side::Buy).unwrap();
    assert_eq!(f(buy.quote), 100.0, "10% of a 1000 budget");
    assert_eq!(buy.pair, "XYZ_USDT");
    let sell = got.iter().find(|p| p.side == Side::Sell).unwrap();
    assert_eq!(f(sell.quote), 150.0);
    assert_eq!(sell.kind, "ladder_sell");
}

#[test]
fn a_coin_with_no_pair_mapping_is_an_error_not_a_guess() {
    let e = command::planned_orders(&plan_json(), &Vec::new(), d(1000.0)).unwrap_err();
    assert!(e.contains("--pair-map"), "{e}");
}

#[test]
fn an_empty_plan_is_not_an_error() {
    let empty = obj(vec![("buys", Json::Arr(vec![])), ("sells", Json::Arr(vec![]))]);
    assert!(command::planned_orders(&empty, &Vec::new(), d(100.0)).unwrap().is_empty());
}

#[test]
fn an_entry_without_a_symbol_is_named() {
    let bad = obj(vec![("sells", Json::Arr(vec![Json::obj()]))]);
    assert_eq!(
        command::planned_orders(&bad, &Vec::new(), d(100.0)).unwrap_err(),
        "a sells entry has no sym"
    );
}

#[test]
fn the_pair_map_is_case_insensitive_on_the_symbol() {
    let m = command::parse_pair_map(Some("xyz=XYZ_USDT"));
    assert_eq!(command::pair_for(&m, "XYZ"), Some("XYZ_USDT".to_string()));
}

#[test]
fn flags_parse_in_both_spellings_and_demand_their_values() {
    let argv = words(&["sync", "--from", "p.json", "--live", "--max-order=25"]);
    let a = Args::parse(&argv).unwrap();
    assert_eq!(a.cmd, "sync");
    assert_eq!(a.get("from").as_deref(), Some("p.json"));
    assert!(a.has("live"));
    assert_eq!(f(a.num("max-order", d(50.0)).unwrap()), 25.0);

    let bad = words(&["sync", "--from"]);
    assert!(Args::parse(&bad).is_err());
    assert_eq!(Args::parse(&bad).unwrap_err(), "--from needs a value");
    let odd = Args::parse(&words(&["plan", "--budget", "lots"])).unwrap();
    assert_eq!(odd.num("budget", d(0.0)).unwrap_err(), "--budget: invalid float literal");
    let sub = Args::parse(&words(&["keys", "check"])).unwrap();
    assert_eq!(sub.get("sub").as_deref(), Some("check"));
}

#[test]
fn caps_default_small_and_can_be_raised_explicitly() {
    let a = Args::parse(&words(&["plan"])).unwrap();
    assert_eq!(f(command::caps_from(&a).unwrap().max_order_quote), 50.0);
    let b = Args::parse(&words(&["plan", "--max-order", "500"])).unwrap();
    assert_eq!(f(command::caps_from(&b).unwrap().max_order_quote), 500.0);
    let c = Args::parse(&words(&["plan", "--max-orders", "3.9"])).unwrap();
    assert_eq!(command::caps_from(&c).unwrap().max_daily_orders, 3);
}

#[test]
fn paths_follow_the_environment() {
    assert_eq!(command::config_dir(Some("/x"), Some("/h")), "/x/rungbot");
    assert_eq!(command::config_dir(Some("  "), Some("/h")), "/h/.config/rungbot");
    assert_eq!(command::state_dir(None, Some("/h")), "/h/.local/state/rungbot");
    assert_eq!(command::halt_path(None, "/x/rungbot"), "/x/rungbot/HALT");
    assert_eq!(command::halt_path(Some("/stop"), "/x/rungbot"), "/stop");
    let a = Args::parse(&words(&["status"])).unwrap();
    assert_eq!(command::journal_path(&a, "/s"), "/s/orders-journal.json");
    assert_eq!(command::lock_wait(None), 120);
    assert_eq!(command::lock_wait(Some(" 5 ")), 5);
    assert_eq!(command::lock_wait(Some("-5")), 120);
    assert_eq!(command::run_config_path(&words(&["churn", "--config", "a"]), Some("b"), "/c"), "a");
    assert_eq!(command::run_config_path(&words(&["churn", "--config=q"]), Some("b"), "/c"), "q");
    assert_eq!(command::run_config_path(&words(&["churn"]), Some("b"), "/c"), "b");
    assert_eq!(command::run_config_path(&words(&["churn"]), None, "/c"), "/c/run.yaml");
}

#[test]
fn words_behind_flags_are_not_positional() {
    let argv = words(&["deploy", "tranche", "--only", "A,b", "50", "--json", "gate"]);
    assert_eq!(command::positionals(&argv), ["tranche", "50", "gate"]);
    match command::layered(&argv).unwrap() {
        Layered::Tranche(b, v, only) => {
            assert_eq!(f(b), 50.0);
            assert_eq!(v, "gate");
            assert_eq!(only.unwrap(), ["A", "B"]);
        }
        other => panic!("{other:?}"),
    }
    assert!(command::takes_lock(&argv));
    assert!(!command::takes_lock(&words(&["deploy", "status"])));
    assert!(matches!(command::layered(&words(&["deploy", "plan"])), Ok(Layered::Plan(_))));
    assert!(matches!(command::layered(&words(&["deploy", "cancel", "nope"])), Ok(Layered::Cancel(None))));
    assert_eq!(
        command::layered(&words(&["deploy", "market", "5"])).unwrap_err(),
        "usage: rungbot-exec deploy market <share%> <binance|gate|revx> <SYM>"
    );
    assert_eq!(
        command::layered(&words(&["deploy", "tranche", "x", "gate"])).unwrap_err(),
        "tranche <usd> <binance|gate|revx> [--only A,B]: invalid float literal"
    );
    assert!(command::layered(&words(&["deploy"])).unwrap_err().starts_with("usage: rungbot-exec deploy status"));
    assert_eq!(command::horizons(&words(&["fillodds"])).unwrap(), [30, 90]);
    assert_eq!(command::horizons(&words(&["fillodds", "--horizons", "7, 14"])).unwrap(), [7, 14]);
    assert!(command::horizons(&words(&["fillodds", "--horizons", "-7"])).is_err());
    assert_eq!(command::churn_days(&words(&["churn", "--days", "28"])).unwrap(), 28);
    let p = command::parts_of(&words(&["snapshot", "--only", "data, wallets", "--no-deploy"]));
    assert!(p.data && p.wallets && !p.scenarios && !p.deploy);
}

#[test]
fn an_order_fits_only_above_the_minimums() {
    let l = Limits { min_base: d(0.1), min_quote: d(5.0) };
    assert_eq!(command::fit("AAA_USDT", l, d(1.0), d(10.0)), None);
    assert_eq!(
        command::fit("AAA_USDT", l, d(0.0), d(10.0)).unwrap(),
        "rounded to 0 @ 10, which is not an order"
    );
    assert_eq!(
        command::fit("AAA_USDT", l, d(0.05), d(10.0)).unwrap(),
        "0.05 is below the venue minimum of 0.1 on AAA_USDT"
    );
    assert_eq!(
        command::fit("AAA_USDT", l, d(0.25), d(10.0)).unwrap(),
        "2.5000 is below the venue's minimum order value of 5 on AAA_USDT"
    );
}

fn args(w: &[&str]) -> Args {
    Args::parse(&words(w)).unwrap()
}

fn prepared() -> command::Prepared {
    let a = args(&["sync", "--budget", "100", "--pair-map", "xyz=XYZ_USDT"]);
    let plan = obj(vec![("buys", Json::Arr(vec![entry("XYZ", 1, 10.0, 100.0)]))]);
    command::prepare(&a, &plan).unwrap()
}

#[test]
fn a_preview_shows_what_would_be_placed() {
    let p = prepared();
    assert_eq!(
        command::plan_head(&p),
        "budget 100.00 · per-order cap 50.00 · daily cap 200.00 / 10 orders"
    );
    let now = d(1_700_000_000.0);
    let rows = Journal::default();
    let line = command::plan_line(&p.orders[0], &rows, p.caps, false, d(0.0), now);
    assert_eq!(line, "  BUY   XYZ_USDT   0.100000 @   100.000000  ≈ 10.00  would place");
    let halted = command::plan_verdict(&p.orders[0], &rows, p.caps, true, d(0.0), now);
    assert_eq!(halted, "REFUSED: the halt file exists; remove it to resume");
    let cid = command::planned_cid(&p.orders[0], now);
    let mut placed = Journal::default();
    placed.record(command::pending_row(&p.orders[0], "gate", &cid, now));
    assert_eq!(
        command::plan_verdict(&p.orders[0], &placed, p.caps, false, d(0.0), now),
        "already placed (idempotent)"
    );
    let bad = args(&["plan"]);
    assert!(command::prepare(&bad, &plan_json()).unwrap_err().starts_with("--budget is required"));
    assert_eq!(
        command::plan_path(&bad).unwrap_err(),
        "--from is required: rungbot plan --json > plan.json"
    );
}

fn texts(w: &Work) -> Vec<String> {
    w.lines.iter().map(|l| l.text.clone()).collect()
}

#[test]
fn a_sync_journals_before_it_sends() {
    let a = args(&["sync", "--live", "--i-understand"]);
    let p = prepared();
    let t = 1_700_000_000.0;
    let mut answers = vec![Answer::Time(d(t)), Answer::Time(d(t)), Answer::Flag(false)];
    let w = command::sync(&a, &p, "gate", &Journal::default(), &answers);
    assert!(matches!(w.ask, Some(Ask::Limits(_))));
    answers.push(Answer::Limits(d(0.01), d(1.0)));
    answers.push(Answer::Number(d(0.1)));
    answers.push(Answer::Number(d(100.0)));
    let w = command::sync(&a, &p, "gate", &Journal::default(), &answers);
    match w.ask {
        Some(Ask::Save(journal)) => {
            let rows = journal.rows();
            assert_eq!(rows.len(), 1);
            assert_eq!(rows[0].status, "pending");
            assert_eq!(rows[0].side, "buy");
        }
        other => panic!("{other:?}"),
    }
    answers.push(Answer::Done);
    let w = command::sync(&a, &p, "gate", &Journal::default(), &answers);
    match w.ask {
        Some(Ask::Place(side, pair, base, price, cid)) => {
            assert_eq!(side, Side::Buy);
            assert_eq!(pair, "XYZ_USDT");
            assert_eq!((f(base), f(price)), (0.1, 100.0));
            assert_eq!(cid, command::planned_cid(&p.orders[0], d(t)));
        }
        other => panic!("{other:?}"),
    }
    answers.push(Answer::Placed("77".into(), String::new()));
    answers.push(Answer::Done);
    let w = command::sync(&a, &p, "gate", &Journal::default(), &answers);
    assert!(w.ask.is_none() && w.fault.is_none());
    assert_eq!(w.journal.rows()[0].status, "open");
    assert_eq!(w.journal.rows()[0].order_id.as_deref(), Some("77"));
    assert_eq!(texts(&w).last().unwrap(), "\nplaced 1 · refused 0 · already journaled 0");
    // The same plan in the same window is not sent again.
    let again = command::sync(&a, &p, "gate", &w.journal, &vec![Answer::Time(d(t)), Answer::Time(d(t))]);
    assert!(again.ask.is_none());
    assert_eq!(texts(&again).last().unwrap(), "\nplaced 0 · refused 0 · already journaled 1");
}

#[test]
fn a_halted_sync_places_nothing() {
    let a = args(&["sync", "--live", "--i-understand"]);
    let p = prepared();
    let t = 1_700_000_000.0;
    let answers = vec![Answer::Time(d(t)), Answer::Time(d(t)), Answer::Flag(true)];
    let w = command::sync(&a, &p, "gate", &Journal::default(), &answers);
    assert!(w.ask.is_none() && w.journal.rows().is_empty() && w.stop);
    assert_eq!(texts(&w)[0], "  XYZ — REFUSED: the halt file exists; remove it to resume");
    assert_eq!(
        command::sync_ready(&args(&["sync"])).unwrap(),
        "sync without --live does nothing; use `plan` to preview"
    );
    assert!(command::sync_ready(&a).is_none());
}

fn resting(id: &str) -> ParsedOrder {
    ParsedOrder {
        order_id: id.into(),
        filled: false,
        status: "open".into(),
        base_qty: None,
        quote: d(0.0),
        avg_price: None,
        price: Some(d(10.0)),
        fee: d(0.0),
        fee_asset: None,
        side: "buy".into(),
        qty: d(2.0),
        client_id: "c1".into(),
    }
}

#[test]
fn a_cancel_needs_both_flags() {
    let open = vec![resting("9")];
    let w = command::cancel(&args(&["cancel", "--live"]), "AAA_USDT", "gate", &open, &Journal::default(), &vec![]);
    assert!(w.ask.is_none());
    assert_eq!(
        texts(&w),
        [
            "1 resting order(s) for AAA_USDT:",
            "  9 buy 2.000000 @ 10.000000",
            "\nNothing cancelled. Add --live --i-understand to cancel these."
        ]
    );
    let both = args(&["cancel", "--live", "--i-understand"]);
    let none = command::cancel(&both, "AAA_USDT", "gate", &vec![], &Journal::default(), &vec![]);
    assert_eq!(texts(&none), ["nothing resting for AAA_USDT"]);
    let mut row = Order::new("c1");
    row.exch = "gate".into();
    row.order_id = Some("9".into());
    row.status = "open".into();
    let mut rows = Journal::default();
    rows.record(row);
    let w = command::cancel(&both, "AAA_USDT", "gate", &open, &rows, &vec![Answer::Done]);
    match w.ask {
        Some(Ask::Settle(o)) => {
            assert_eq!(o.status, "canceled");
            assert_eq!(o.note.as_deref(), Some("manual --cancel"));
        }
        other => panic!("{other:?}"),
    }
    let mut after = Order::new("c1");
    after.status = "canceled".into();
    let done = vec![Answer::Done, Answer::Settled(after, After::Plain), Answer::Done, Answer::Done];
    let w = command::cancel(&both, "AAA_USDT", "gate", &open, &rows, &done);
    assert!(w.ask.is_none());
    assert_eq!(texts(&w), ["  cancelled c1"]);
    let failed = command::cancel(&both, "AAA_USDT", "gate", &open, &rows, &vec![Answer::Failed("gone".into()), Answer::Done]);
    assert_eq!(texts(&failed), ["  9 failed: gone (may have just filled)"]);
    assert!(failed.lines[0].err);
}

#[test]
fn reports_read_as_they_print() {
    let mut bad = Order::new("b1");
    bad.exch = "gate".into();
    bad.status = "open".into();
    bad.last_error = Some("timeout".into());
    bad.ts = Some(d(1_700_000_000.0));
    bad.quote = Some(d(12.0));
    let rows = vec![bad];
    let s = command::status_lines("/j", &rows, "/h", false, d(1_700_000_100.0));
    assert_eq!(
        s,
        [
            "journal: /j",
            "open: 1 · filled (24h): 0 · placed today: 1 · notional today: 12.00",
            "halt file: /h (absent)",
            "\n1 open order(s) whose last poll failed:",
            "  b1 gate timeout",
        ]
    );
    assert_eq!(
        command::resting_lines("gate", "AAA_USDT", &vec![resting("9")])[1],
        "  9 buy 2.000000 @ 10.000000  open (c1)"
    );
    let mut fill = Order::new("f1");
    fill.side = "buy".into();
    fill.sym = "AAA".into();
    fill.filled_base = Some(d(1.5));
    fill.filled_quote = Some(d(15.0));
    fill.partial = Some(true);
    let got = command::reconcile_lines(&vec![fill], &vec![], &rows);
    assert_eq!(
        got,
        [
            "  filled (part, then left the book) f1 buy AAA 1.50000000 for 15.00 @ ?",
            "\nfilled 1 · adopted 0 · poll errors 1"
        ]
    );
    assert_eq!(command::archive_line(0, d(30.0), "/a"), "nothing to archive");
    assert_eq!(
        command::archive_line(2, d(30.0), "/a"),
        "archived 2 finished cancel row(s) older than 30d to /a"
    );
    let b = vec![
        ("AAA".to_string(), Balance { free: d(1.0), locked: d(0.0) }),
        ("BBB".to_string(), Balance { free: d(0.0), locked: d(0.0) }),
    ];
    assert_eq!(command::keys_lines("gate", &b).len(), 9);
    assert_eq!(command::keys_lines("revx", &b)[1], "✓ it can read balances (1 assets with a balance)");
    assert_eq!(command::keys_refusal("403", Some("allowlist")), "✗ 403\n  allowlist");
    assert_eq!(command::venue_name(&args(&["status"])).unwrap(), "gate");
    assert_eq!(
        command::venue_name(&args(&["status", "--venue", "x"])).unwrap_err(),
        "--venue \"x\": expected one of gate, revx, binance"
    );
    assert_eq!(Caps::default().max_daily_orders, 10);
}

#[test]
fn an_import_does_not_replace_rows_unasked() {
    let beside = vec![("/s/pnl.json".to_string(), true)];
    assert_eq!(
        import::write_refusal("/j", 3, "/a", false, &beside, false).unwrap(),
        "/j already holds 3 row(s); pass --force to replace it"
    );
    assert_eq!(
        import::write_refusal("/j", 0, "/a", true, &beside, false).unwrap(),
        "/a already exists; pass --force to replace it"
    );
    assert_eq!(
        import::write_refusal("/j", 0, "/a", false, &beside, false).unwrap(),
        "/s/pnl.json already exists; pass --force to replace it"
    );
    assert!(import::write_refusal("/j", 3, "/a", true, &beside, true).is_none());
    let ttl = obj(vec![("c1", Json::Int(5)), ("c2", Json::text("x"))]);
    assert_eq!(import::read_ttl("/t", &ttl).unwrap_err(), "/t: c2 is not a timestamp");
    assert!(import::records_of("/p", Json::obj()).is_err());
    assert!(import::object_of("/p", Json::Arr(vec![])).is_err());
}

#[test]
fn a_difference_names_its_place() {
    let a = obj(vec![("x", Json::Arr(vec![Json::Int(1), Json::Int(2)])), ("n", Json::Null), ("f", Json::Float(d(5.0)))]);
    let b = obj(vec![("x", Json::Arr(vec![Json::Int(1), Json::Int(3)])), ("f", Json::Int(5))]);
    assert_eq!(import::first_difference(&a, &b, "c1").unwrap(), "c1.x[1]: 2 read back as 3");
    let c = obj(vec![("x", Json::Arr(vec![Json::Int(1), Json::Int(2)])), ("f", Json::Int(5))]);
    assert!(import::first_difference(&a, &c, "c1").is_none(), "null and absent, 5 and 5.0 are the same");
    let short = obj(vec![("x", Json::Arr(vec![Json::Int(1)])), ("f", Json::Int(5))]);
    assert_eq!(import::first_difference(&a, &short, "c1").unwrap(), "c1.x: 2 items, read back 1");
    let gone = obj(vec![("f", Json::Int(5))]);
    assert_eq!(import::first_difference(&a, &gone, "c1").unwrap(), "c1.x: [1,2] read back as null");
}

#[test]
fn an_import_names_each_row_that_does_not_read_back() {
    let mut j = Journal::default();
    for cid in ["a", "b"] {
        let mut o = Order::new(cid);
        o.sym = "BTC".into();
        o.quote = Some(d(5.0));
        j.record(o);
    }
    let row = |cid: &str, sym: &str| {
        obj(vec![("client_id", Json::text(cid)), ("sym", Json::text(sym)), ("quote", Json::Int(5)), ("price", Json::Null)])
    };
    let source = obj(vec![("b", row("b", "ETH")), ("a", row("a", "BTC")), ("c", obj(vec![("x", Json::Int(1))]))]);
    let told = import::mismatches(&source, &j);
    assert_eq!(told, ["b.sym: \"ETH\" read back as \"BTC\"", "c: {\"x\":1} read back as null"]);
    let none = RunState {
        ladder: None,
        pnl: None,
        ttl: None,
        decisions: None,
        notices: None,
        btc_alert: None,
        deploy: None,
        audit: None,
    };
    let report = import::report_of(&source, &j, 4, &none);
    assert_eq!((report.rows, report.archive_rows, report.mismatches), (2, 4, told));
    let own = Json::Obj(j.rows().iter().map(|o| (o.client_id.clone(), o.to_json())).collect());
    assert!(import::mismatches(&own, &j).is_empty(), "a journal matches its own file");
    let same = obj(vec![("a", row("a", "BTC"))]);
    assert!(import::report_of(&same, &j, 0, &none).mismatches.is_empty());
}

#[test]
fn a_decision_log_that_is_no_json_is_refused_by_its_line() {
    let log = "{}\n   \n{\"a\": 1}\nnope\nworse\n";
    let fault = |why: &str| Some(why.to_string());
    let faults = vec![None, fault("blank"), None, fault("expected value"), fault("later")];
    assert_eq!(import::check_decisions("/d", log, &faults).unwrap_err(), "/d line 4: expected value");
    assert!(import::check_decisions("/d", log, &vec![None, fault("blank"), None, None, None]).is_ok());
    assert!(import::check_decisions("/d", "", &vec![]).is_ok());
}
