use rungbot::double::Double;
use rungbot::watch::divergence;
use rungbot::watch::divergence::{Book, DivergenceConfig};
use rungbot::watch::froth;
use rungbot::watch::json::{obj, Json};
use rungbot::watch::regime_state;
use rungbot::watch::regime_state::{Prior, Shift};
use rungbot::watch::regime_watch;
use rungbot::watch::regime_watch::Quote;
use rungbot::watch::zone;
use rungbot::watch::zone::{ReserveConfig, ZoneConfig};
use rungbot::watch::Hints;

fn d(x: f64) -> Double {
    Double { bits: x.to_bits() }
}

fn f(x: Double) -> f64 {
    f64::from_bits(x.bits)
}

fn num(x: f64) -> Json {
    Json::Float(d(x))
}

fn text(s: &str) -> Json {
    Json::text(s)
}

fn hints() -> Hints {
    Hints { deploy_cmd: "deploy".into(), halt_file: "/h/HALT".into() }
}

const T0: f64 = 1_700_000_000.0;
const DAY: f64 = 86_400.0;

// ------------------------------------------------------------------ divergence

fn expectation() -> Json {
    obj(vec![
        ("epoch", Json::Int(1)),
        ("alpha_pct", num(4.0)),
        ("anchor_days", Json::Int(28)),
        ("strat_return_floor_pct", num(-5.0)),
    ])
}

fn baseline(alerted: &[&str]) -> Json {
    let mut st = obj(vec![
        ("epoch", Json::Int(T0 as i64)),
        ("expect_epoch", Json::Int(1)),
        ("held0", obj(vec![("AAA", num(10.0))])),
        ("stable0", num(100.0)),
        ("px0", obj(vec![("AAA", num(10.0))])),
    ]);
    if !alerted.is_empty() {
        st.set("alerted", Json::Arr(alerted.iter().map(|a| text(a)).collect()));
    }
    st
}

fn judged(state: Option<&Json>, held: f64, now: f64, dry_run: bool) -> divergence::Plan {
    let expect = expectation();
    let hints = hints();
    divergence::plan(divergence::Input {
        now: d(now),
        expect: &expect,
        state,
        book: Ok(Book { held: obj(vec![("AAA", num(held))]), stable: d(100.0) }),
        prices: Ok(obj(vec![("AAA", num(10.0))])),
        regime: "chop".into(),
        dry_run,
        cfg: DivergenceConfig::default(),
        hints: &hints,
    })
}

const LINE: &str = "realized alpha -25.00% vs expected +2.00% (+4.0% 28d prorated x0.50, \
                    drift -27.00pp) | realized return -25.00% vs floor -5.00% over 14d | regime chop";

#[test]
fn a_lost_edge_is_mailed_once_per_baseline() {
    let now = T0 + 14.0 * DAY;
    let st = baseline(&[]);
    match judged(Some(&st), 5.0, now, false) {
        divergence::Plan::Send { stdout, subject, body, state } => {
            assert_eq!(stdout, [LINE]);
            assert_eq!(subject, "Crypto strategy: DRAWDOWN beyond backtest");
            assert!(body.contains("- EDGE LOST: alpha -25.00% is 27.0pp under the backtested +2.00% (band 5pp).\n"));
            assert!(body.contains("strategy   (live book, valued now):     $150.00\n"), "{body}");
            assert!(body.contains("Current regime label: CHOP."));
            assert!(body.contains("`touch /h/HALT`"));
            assert_eq!(state.get("alerted").unwrap().dumps(None), "[\"edge_lost\", \"drawdown\"]");
            match judged(Some(&state), 5.0, now, false) {
                divergence::Plan::Done { code, stdout, state, .. } => {
                    assert_eq!(code, 0);
                    assert_eq!(
                        stdout[1],
                        "divergence alert already sent for this baseline (edge_lost, drawdown); not sending again."
                    );
                    assert!(state.is_none());
                }
                other => panic!("{other:?}"),
            }
        }
        other => panic!("{other:?}"),
    }
}

#[test]
fn a_guard_that_clears_rearms() {
    let st = baseline(&["edge_lost"]);
    match judged(Some(&st), 10.0, T0 + 14.0 * DAY, false) {
        divergence::Plan::Done { code: 0, state: Some(s), stderr, .. } => {
            assert!(s.get("alerted").is_none() && stderr.is_empty());
        }
        other => panic!("{other:?}"),
    }
    match judged(Some(&st), 10.0, T0 + 14.0 * DAY, true) {
        divergence::Plan::Done { state: None, .. } => {}
        other => panic!("a dry run writes nothing: {other:?}"),
    }
}

#[test]
fn a_new_expectation_takes_a_new_baseline() {
    match judged(None, 10.0, T0, false) {
        divergence::Plan::Done { code: 0, stdout, state: Some(s), .. } => {
            assert_eq!(stdout, ["Baselined divergence state to current book (expect_epoch=1)."]);
            assert_eq!(
                s.dumps(None),
                "{\"epoch\": 1700000000, \"expect_epoch\": 1, \"held0\": {\"AAA\": 10.0}, \
                 \"stable0\": 100.0, \"px0\": {\"AAA\": 10.0}}"
            );
        }
        other => panic!("{other:?}"),
    }
    let st = baseline(&[]);
    match judged(Some(&st), 5.0, T0 + 3.5 * DAY, false) {
        divergence::Plan::Done { stdout, .. } => {
            assert_eq!(stdout, ["Only 3.5d since baseline (< 7d) -- too early to judge."]);
        }
        other => panic!("{other:?}"),
    }
}

#[test]
fn a_book_that_cannot_be_read_is_an_error() {
    let expect = expectation();
    let hints = hints();
    let input = |expect, book| divergence::Input {
        now: d(T0),
        expect,
        state: None,
        book,
        prices: Ok(Json::obj()),
        regime: "chop".into(),
        dry_run: false,
        cfg: DivergenceConfig::default(),
        hints: &hints,
    };
    match divergence::plan(input(&expect, Err("down".into()))) {
        divergence::Plan::Done { code: 1, stderr, .. } => {
            assert_eq!(stderr, ["Live book/price fetch failed: down"]);
        }
        other => panic!("{other:?}"),
    }
    let none = Json::obj();
    let book = Book { held: Json::obj(), stable: d(0.0) };
    match divergence::plan(input(&none, Ok(book))) {
        divergence::Plan::Done { code: 1, stderr, .. } => {
            assert_eq!(stderr, ["backtest expectation has no `epoch`"]);
        }
        other => panic!("{other:?}"),
    }
    let held = obj(vec![("AAA", num(2.0)), ("BBB", num(9.0))]);
    let px = obj(vec![("AAA", num(10.5)), ("CCC", num(1.0))]);
    assert_eq!(f(divergence::value(&held, d(1.5), &px)), 22.5);
}

// ------------------------------------------------------------------ froth

fn signals() -> Vec<froth::Signal> {
    let day = |v: &str| obj(vec![("value", text(v)), ("value_classification", text("Extreme Greed"))]);
    let fng = Ok(obj(vec![("data", Json::Arr(vec![day("80"), day("70")]))]));
    let rate = |v: &str| obj(vec![("fundingRate", text(v))]);
    let funding = Ok(Json::Arr(vec![rate("0.0004"), rate("-0.0001")]));
    let oi = |v: &str| obj(vec![("sumOpenInterest", text(v))]);
    let interest = Ok(Json::Arr(vec![oi("100000"), oi("99000")]));
    froth::read_signals(&fng, &funding, &interest, &Err("boom".into()))
}

#[test]
fn signals_read_and_a_dead_source_does_not_fire() {
    let s = signals();
    let shown: Vec<(&str, bool, &str)> = s.iter().map(|x| (x.0, x.1, x.2.as_str())).collect();
    assert_eq!(
        shown,
        [
            ("fear_greed", true, "80 (Extreme Greed), 7d avg 75"),
            ("funding", false, "30-period avg +0.0150%/8h, 1/30 negative"),
            ("open_interest", true, "99,000 BTC, 99.0% of 30d high"),
            ("mayer", false, "unavailable: boom"),
        ]
    );
    let closes = Ok(vec![d(100.0); 200]);
    let s = froth::read_signals(&Ok(Json::obj()), &Ok(Json::Arr(vec![])), &Ok(Json::Arr(vec![])), &closes);
    let shown: Vec<&str> = s.iter().map(|x| x.2.as_str()).collect();
    assert_eq!(
        shown,
        [
            "unavailable: 'data'",
            "unavailable: division by zero",
            "unavailable: list index out of range",
            "1.000 (spot $100)",
        ]
    );
    let levels: Vec<&str> = (0..5).map(froth::level_for).collect();
    assert_eq!(levels, ["calm", "elevated", "warm", "hot", "hot"]);
}

#[test]
fn a_level_is_mailed_when_it_changes() {
    let s = signals();
    let arm = || Ok(obj(vec![("armed", Json::Bool(false)), ("ts", num(T0))]));
    match froth::plan(&s, &Json::obj(), arm(), false, d(T0)) {
        froth::Plan::Send { subject, text, state } => {
            assert_eq!(subject, "FROTH WARM: 2/4 signals (? -> warm)");
            assert!(text.starts_with("MARKET FROTH: UNKNOWN -> WARM  (2/4 signals firing)\n\nSIGNALS\n"));
            assert!(text.contains("\n  HOT  fear_greed     80 (Extreme Greed), 7d avg 75\n"), "{text}");
            assert!(text.ends_with("Checked: 2023-11-14 22:13 UTC"), "{text}");
            assert_eq!(state.get("fired").unwrap().dumps(None), "2");
            match froth::plan(&s, &state, arm(), false, d(T0 + DAY)) {
                froth::Plan::Unchanged { line, state } => {
                    assert_eq!(line, "froth warm (2/4), BTC arm off — unchanged, no alert.");
                    assert!(state.is_some());
                }
                other => panic!("{other:?}"),
            }
            match froth::plan(&s, &state, Err("x".into()), false, d(T0 + DAY)) {
                froth::Plan::Unchanged { state, .. } => assert!(state.is_none(), "a failed read is not kept"),
                other => panic!("{other:?}"),
            }
            let on = Ok(obj(vec![("armed", Json::Bool(true)), ("ts", num(T0))]));
            match froth::plan(&s, &state, on, false, d(T0 + DAY)) {
                froth::Plan::Send { subject, .. } => {
                    assert_eq!(subject, "BTC BLOW-OFF ARMED | FROTH WARM: 2/4 signals (warm -> warm)");
                }
                other => panic!("{other:?}"),
            }
        }
        other => panic!("{other:?}"),
    }
}

#[test]
fn the_arming_reads_the_averages() {
    let rows: Vec<(Double, Double)> = (0..400).map(|i| (d((T0 - (400 - i) as f64 * DAY) * 1000.0), d(100.0))).collect();
    let arm = froth::btc_arm(&rows, d(90.0), d(T0)).unwrap();
    assert_eq!(
        arm.dumps(None),
        "{\"armed\": false, \"fired\": [\"wrsi\"], \"pi\": 0.5, \"mayer\": 1.0, \"wrsi\": 90.0, \
         \"spot\": 100.0, \"ts\": 1700000000.0}"
    );
    assert_eq!(froth::btc_arm(&vec![], d(0.0), d(T0)).unwrap_err(), "float division by zero");
    assert_eq!(froth::weekly(&rows, d(T0)).len(), 57);
}

// ------------------------------------------------------------------ zones

#[test]
fn the_depth_is_the_first_percentage_in_a_note() {
    let depth = |s: &str| zone::depth_from_note(s).map(f);
    assert_eq!(depth("rung 2 at -12.5% (was -8%)"), Some(12.5));
    assert_eq!(depth("-7% below"), Some(7.0));
    assert_eq!(depth("a - 5% dip, -5 pct, -.5%"), None);
    assert_eq!(depth("-3.%-4%"), Some(4.0));
}

#[test]
fn a_stale_book_holds_nothing() {
    let book = obj(vec![
        ("_bal", obj(vec![("hold", obj(vec![("AAA", num(2.0))])), ("ts", num(T0))])),
        ("_sellpolicy", obj(vec![("on", Json::Int(1))])),
    ]);
    let (hold, on) = zone::book_state(Some(&book), d(T0 + 60.0), d(DAY));
    assert_eq!((hold.dumps(None).as_str(), on), ("{\"AAA\": 2.0}", Some(true)));
    let (hold, on) = zone::book_state(Some(&book), d(T0 + 2.0 * DAY), d(DAY));
    assert_eq!((hold.dumps(None).as_str(), on), ("{}", Some(true)));
    assert_eq!(zone::book_state(None, d(T0), d(DAY)).1, None);
}

#[test]
fn a_flip_says_what_rests_below() {
    let row = |p: f64| obj(vec![("price", num(p))]);
    let hold = obj(vec![("AAA", num(1234.5)), ("BBB", num(0.0))]);
    let rows = vec![row(80.0), row(90.0)];
    assert_eq!(
        zone::flip_note("AAA", &rows, &hold, Some(d(100.0))),
        "You hold 1,234.5 AAA. Your 2 resting buy rungs 10.0% to 20.0% below spot $100: \
         a coin that keeps running fills none of them."
    );
    assert_eq!(
        zone::flip_note("CCC", &vec![row(95.0)], &hold, Some(d(100.0))),
        "Your 1 resting buy rung 5.0% below spot $100."
    );
    assert_eq!(zone::flip_note("BBB", &vec![], &hold, Some(d(100.0))), "You hold no BBB.");
}

fn stable(asset: &str, free: f64) -> Result<Json, String> {
    Ok(obj(vec![(asset, obj(vec![("free", num(free)), ("locked", num(0.0))]))]))
}

fn reserve() -> ReserveConfig {
    ReserveConfig {
        alloc: vec![("AAA".into(), d(0.5)), ("BBB".into(), d(0.5))],
        routing: vec![("AAA".into(), "gate".into()), ("BBB".into(), "revx".into())],
    }
}

#[test]
fn the_top_up_is_held_back() {
    let r = reserve();
    assert_eq!(f(r.gate_share()), 0.5);
    assert_eq!(f(r.onramp_reserve(d(400.0), d(100.0))), 150.0);
    assert_eq!(f(r.onramp_reserve(d(150.0), d(100.0))), 0.0, "not worth a transfer");
    let b = vec![
        zone::Balance { venue: "binance".into(), read: Err("down".into()) },
        zone::Balance { venue: "revx".into(), read: stable("USD", 400.0) },
        zone::Balance { venue: "gate".into(), read: stable("USDT", 100.0) },
    ];
    let free: Vec<(String, Option<f64>, String)> =
        zone::free_stable(&b, &r).into_iter().map(|x| (x.venue, x.free.map(f), x.why)).collect();
    assert_eq!(
        free,
        [
            ("binance".to_string(), None, "balances unavailable: down".to_string()),
            ("revx".into(), Some(250.0), "after $150.00 Gate reserve".into()),
            ("gate".into(), Some(100.0), "".into()),
        ]
    );
}

fn zone_input(state: Json, running: bool) -> zone::Input {
    let coin = obj(vec![
        ("running", Json::Bool(running)),
        ("signals", obj(vec![("above_sma30", Json::Bool(true)), ("higher_lows", Json::Bool(false))])),
    ]);
    let order = obj(vec![
        ("client_id", text("c1")),
        ("sym", text("AAA")),
        ("exch", text("gate")),
        ("pair", text("AAA_USDT")),
        ("rung", Json::Int(1)),
        ("order_id", text("9")),
        ("price", num(80.0)),
        ("quote", num(40.0)),
        ("ts", num(T0 - 20.0 * DAY)),
        ("note", text("-10% zone")),
    ]);
    zone::Input {
        now: d(T0),
        state,
        reg: obj(vec![("market", text("chop")), ("coins", obj(vec![("AAA", coin)]))]),
        deploy_rows: vec![order],
        balances: vec![zone::Balance { venue: "gate".into(), read: stable("USDT", 100.0) }],
        book: None,
        reserve: ReserveConfig { alloc: vec![], routing: vec![] },
        cfg: ZoneConfig { alts: vec!["AAA".into()], ..ZoneConfig::default() },
    }
}

#[test]
fn a_zone_run_finds_flips_stale_rungs_and_idle_cash_once() {
    let quotes = vec![Quote { venue: "gate".into(), pair: "AAA_USDT".into(), price: Some(d(100.0)) }];
    let mut state = zone::empty_state();
    state.set("run", obj(vec![("AAA", Json::Bool(false))]));
    let inp = zone_input(state, true);
    let c = zone::collect(&inp, &quotes);
    assert_eq!((c.market.as_str(), c.alts_running), ("chop", 1));
    assert_eq!(c.events.run.len(), 1);
    assert_eq!((c.events.run[0].score, c.events.run[0].hits.as_slice()), (1, &["above_sma30".to_string()][..]));
    let s = &c.events.stale[0];
    assert_eq!((f(s.dist), f(s.placed), f(s.age_d)), (20.0, 10.0, 20.0));
    assert_eq!((c.events.idle[0].venue.as_str(), f(c.events.idle[0].free)), ("gate", 100.0));
    match zone::plan(&inp.state, &c, false, d(T0), &inp.cfg, &hints()) {
        zone::Plan::Send(subject, text) => {
            assert!(subject.starts_with("ZONE WATCH: 2 need you ("), "{subject}");
            assert!(text.starts_with(
                "ZONE WATCH: 2 THINGS NEED YOU\nmarket CHOP, 1/1 alts running (alt-season tripwire at 3)\n\nYOUR CALL\n"
            ));
            assert!(text.contains("\n    AAA   now RUNNING  (1/4: above 30d SMA)\n"), "{text}");
        }
        other => panic!("{other:?}"),
    }
    let after = zone::after_delivery(&inp.state, &c, d(T0));
    let again = zone_input(after, true);
    let c = zone::collect(&again, &quotes);
    assert!(!c.events.any(), "each is mailed once");
    match zone::plan(&again.state, &c, false, d(T0), &again.cfg, &hints()) {
        zone::Plan::Quiet(line, _) => assert_eq!(line, "zone-watch: quiet"),
        other => panic!("{other:?}"),
    }
    let mut grown = again;
    grown.balances = vec![zone::Balance { venue: "gate".into(), read: stable("USDT", 125.0) }];
    assert_eq!(zone::collect(&grown, &quotes).events.idle.len(), 1, "a quarter more is news");
}

#[test]
fn only_endless_cash_is_told_again() {
    let told_again = |free: f64| {
        let mut inp = zone_input(zone::empty_state(), true);
        inp.balances = vec![zone::Balance { venue: "gate".into(), read: stable("USDT", free) }];
        let c = zone::collect(&inp, &vec![]);
        let after = zone::after_delivery(&inp.state, &c, d(T0));
        let mut again = zone_input(after, true);
        again.balances = inp.balances;
        (c.events.idle.len(), zone::collect(&again, &vec![]).events.idle.len())
    };
    assert_eq!(told_again(1e300), (1, 0));
    assert_eq!(told_again(f64::NAN), (0, 0));
    assert_eq!(told_again(f64::NEG_INFINITY), (0, 0));
    assert_eq!(told_again(f64::INFINITY), (1, 1));
}

#[test]
fn a_first_zone_run_records_its_baseline() {
    let mut inp = zone_input(zone::empty_state(), true);
    inp.deploy_rows = vec![];
    inp.balances = vec![];
    let c = zone::collect(&inp, &vec![]);
    match zone::plan(&inp.state, &c, false, d(T0), &inp.cfg, &hints()) {
        zone::Plan::Quiet(line, state) => {
            assert_eq!(line, "zone-watch: quiet (baseline recorded)");
            assert_eq!(state.dumps(None), "{\"run\": {\"AAA\": true}, \"stale\": {}, \"idle\": {}}");
        }
        other => panic!("{other:?}"),
    }
    let all = zone::preview(d(T0), &inp.cfg, &hints());
    assert!(all.contains("ZONE WATCH: ") && all.contains("Checked: 2023-11-14 22:13 UTC"));
}

// ------------------------------------------------------------------ the regime

#[test]
fn zones_are_priced_against_spot() {
    let order = |id: &str, price: f64, quote: f64| {
        obj(vec![
            ("sym", text("AAA")),
            ("exch", text("gate")),
            ("pair", text("AAA_USDT")),
            ("order_id", text(id)),
            ("price", num(price)),
            ("quote", num(quote)),
        ])
    };
    let quotes = vec![Quote { venue: "gate".into(), pair: "AAA_USDT".into(), price: Some(d(100.0)) }];
    let rows = vec![order("1", 95.0, 10.0), order("2", 75.0, 20.0), order("", 50.0, 5.0), order("3", 50.0, 40.0)];
    let p = regime_watch::zone_picture(&rows, &quotes).unwrap();
    assert_eq!(f(p.total), 70.0);
    let buckets: Vec<f64> = p.buckets.iter().map(|b| f(*b)).collect();
    assert_eq!(buckets, [10.0, 0.0, 20.0, 40.0]);
    let none = regime_watch::zone_picture(&rows, &vec![]).unwrap();
    assert!(none.rows.is_empty());
    let bare = vec![obj(vec![("pair", text("AAA_USDT")), ("exch", text("gate")), ("order_id", text("1"))])];
    assert_eq!(regime_watch::zone_picture(&bare, &quotes).unwrap_err(), "order AAA_USDT has no price");
}

#[test]
fn a_shift_is_announced_unless_it_is_not_pending() {
    let h = obj(vec![("label", text("bull")), ("confirmed", Json::Bool(true)), ("held_days", Json::Int(20))]);
    let shift = regime_state::pending_shift(&h);
    assert!(shift.is_some());
    assert!(matches!(regime_watch::plan(shift, &h, false), regime_watch::Plan::Announce(_)));
    assert!(matches!(regime_watch::plan(None, &h, false), regime_watch::Plan::Quiet));
    match regime_watch::plan(None, &h, true) {
        regime_watch::Plan::Announce(s) => assert_eq!((s.label.as_str(), s.stage.as_str()), ("bull", "confirmed")),
        other => panic!("{other:?}"),
    }
}

#[test]
fn a_history_is_replayed_when_it_is_old() {
    let labels: Vec<String> = ["chop", "bull", "bull", "bull"].iter().map(|l| l.to_string()).collect();
    let notified = obj(vec![("chop", text("confirmed")), ("bull", text("provisional"))]);
    let old = obj(vec![("epoch", Json::Int(T0 as i64 - 13 * 3600)), ("notified", notified)]);
    let h = regime_state::label_history(&Prior::Parsed(old), d(T0), d(12.0), 3, false, &labels);
    assert!(h.save);
    assert_eq!(
        h.json.dumps(None),
        "{\"epoch\": 1700000000, \"labels\": [\"chop\", \"bull\", \"bull\", \"bull\"], \"label\": \"bull\", \
         \"held_days\": 3, \"prev_label\": \"chop\", \"confirmed\": true, \"confirm_days\": 3, \
         \"days_covered\": 4, \"notified\": {\"bull\": \"provisional\"}}"
    );
    let fresh = Prior::Parsed(obj(vec![("epoch", Json::Int(T0 as i64 - 3600))]));
    let h = regime_state::label_history(&fresh, d(T0), d(12.0), 3, false, &labels);
    assert!(!h.save, "a fresh one is served as it is");
    let kept = Prior::Parsed(obj(vec![("epoch", Json::Int(0)), ("labels", Json::Arr(vec![text("bull")]))]));
    let h = regime_state::label_history(&kept, d(T0), d(12.0), 3, false, &vec![]);
    assert_eq!(h.json.get("stale").unwrap().dumps(None), "true");
    assert!(!h.save);
}

#[test]
fn a_shift_is_written_with_all_its_fields() {
    let s = Shift::current(&Json::obj());
    assert_eq!(
        s.to_json().dumps(None),
        "{\"label\": \"unknown\", \"prev_label\": null, \"stage\": \"provisional\", \"held_days\": 0, \
         \"confirm_days\": 0, \"days_covered\": 0}"
    );
    let mut h = Json::obj();
    regime_state::mark_notified(&mut h, "bull", "confirmed");
    assert_eq!(h.dumps(None), "{\"notified\": {\"bull\": \"confirmed\"}}");
}
