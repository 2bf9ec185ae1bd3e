use rungbot::binance;
use rungbot::binance::{Binance, Filters};
use rungbot::clients;
use rungbot::crypto;
use rungbot::double::Double;
use rungbot::gate;
use rungbot::gate::{Gate, PairInfo};
use rungbot::guard::{check, Caps, Context, Intent, Mode, Refusal};
use rungbot::http;
use rungbot::http::{Reply, Request, Response, SendError, VenueError};
use rungbot::ids;
use rungbot::journal::{client_id, read_row, root_id, suffixed, Journal, Order, Side, MAX_CLIENT_ID_LEN};
use rungbot::keys;
use rungbot::keys::{Credentials, KeyError, KeyFile};
use rungbot::pyfmt;
use rungbot::watch::json::{obj, Json};

fn d(x: f64) -> Double {
    Double { bits: x.to_bits() }
}

fn f(x: Double) -> f64 {
    f64::from_bits(x.bits)
}

// ------------------------------------------------------------------ rails

fn intent(quote: f64) -> Intent {
    Intent { sym: "AAA".into(), quote: d(quote), decided_price: d(100.0), venue_price: d(100.0) }
}

fn live() -> Context {
    Context { mode: Mode::Live, halted: false, acknowledged: true, today_notional: d(0.0), today_orders: 0 }
}

#[test]
fn nothing_is_placed_unless_the_mode_is_live() {
    for m in [Mode::Off, Mode::Dry] {
        let ctx = Context { mode: m, ..live() };
        assert_eq!(check(&intent(10.0), ctx, Caps::default()), Err(Refusal::NotLive(m)));
    }
    assert!(check(&intent(10.0), live(), Caps::default()).is_ok());
}

#[test]
fn the_halt_file_stops_everything() {
    let ctx = Context { halted: true, ..live() };
    assert_eq!(check(&intent(10.0), ctx, Caps::default()), Err(Refusal::Halted));
}

#[test]
fn live_trading_must_be_acknowledged_once() {
    let ctx = Context { acknowledged: false, ..live() };
    assert_eq!(check(&intent(10.0), ctx, Caps::default()), Err(Refusal::NotAcknowledged));
}

#[test]
fn the_per_order_cap_is_small_by_default_and_binds() {
    let caps = Caps::default();
    assert_eq!(caps.max_order_quote, d(50.0), "nobody should discover this by accident");
    assert!(check(&intent(50.0), live(), caps).is_ok(), "exactly at the cap is allowed");
    assert!(matches!(check(&intent(50.01), live(), caps), Err(Refusal::TooLarge { .. })));
}

#[test]
fn the_daily_notional_cap_counts_what_is_already_placed() {
    let caps = Caps::default();
    let ctx = Context { today_notional: d(180.0), ..live() };
    assert!(check(&intent(20.0), ctx, caps).is_ok(), "exactly at 200 is allowed");
    assert!(matches!(check(&intent(21.0), ctx, caps), Err(Refusal::DailyNotional { .. })));
}

#[test]
fn the_daily_order_count_binds_before_the_next_order() {
    let caps = Caps::default();
    let ctx = Context { today_orders: 10, ..live() };
    assert!(matches!(
        check(&intent(1.0), ctx, caps),
        Err(Refusal::DailyOrders { placed: 10, cap: 10 })
    ));
    let ok = Context { today_orders: 9, ..live() };
    assert!(check(&intent(1.0), ok, caps).is_ok());
}

#[test]
fn slippage_is_measured_in_both_directions() {
    let caps = Caps::default();
    let mut up = intent(10.0);
    up.venue_price = d(103.0);
    assert!(matches!(check(&up, live(), caps), Err(Refusal::Slippage { .. })));

    let mut down = intent(10.0);
    down.venue_price = d(97.0);
    assert!(
        matches!(check(&down, live(), caps), Err(Refusal::Slippage { .. })),
        "a price that ran away downward is just as wrong"
    );

    let mut fine = intent(10.0);
    fine.venue_price = d(101.0);
    assert!(check(&fine, live(), caps).is_ok());
}

#[test]
fn a_zero_or_negative_price_is_refused_rather_than_divided_by() {
    let caps = Caps::default();
    let mut zero = intent(10.0);
    zero.decided_price = d(0.0);
    assert_eq!(check(&zero, live(), caps), Err(Refusal::BadPrice));

    let mut neg = intent(10.0);
    neg.venue_price = d(-1.0);
    assert_eq!(check(&neg, live(), caps), Err(Refusal::BadPrice));

    assert_eq!(check(&intent(0.0), live(), caps), Err(Refusal::BadPrice));
}

#[test]
fn dust_is_refused_before_the_venue_has_to() {
    let caps = Caps::default();
    assert!(matches!(check(&intent(0.5), live(), caps), Err(Refusal::TooSmall { .. })));
}

#[test]
fn a_zero_cap_means_unlimited_not_forbidden() {
    let caps = Caps {
        max_order_quote: d(0.0),
        max_daily_notional: d(0.0),
        max_daily_orders: 0,
        max_slippage_pct: d(0.0),
        min_order_quote: d(1.0),
    };
    let ctx = Context { today_notional: d(1e9), today_orders: 9_999, ..live() };
    let mut wild = intent(1e6);
    wild.venue_price = d(500.0);
    assert!(check(&wild, ctx, caps).is_ok(), "explicitly disabled means disabled");
}

#[test]
fn the_refusals_say_what_to_do_about_them() {
    let msgs = [
        Refusal::Halted.text(),
        Refusal::NotAcknowledged.text(),
        Refusal::NotLive(Mode::Dry).text(),
    ];
    assert!(msgs[0].contains("remove it"), "{}", msgs[0]);
    assert!(msgs[1].contains("--i-understand"), "{}", msgs[1]);
    assert!(msgs[2].contains("dry"), "{}", msgs[2]);
    assert_eq!(
        Refusal::TooSmall { quote: d(0.5), min: d(1.0) }.text(),
        "order of 0.50 is below the 1.00 minimum"
    );
    assert_eq!(
        Refusal::TooLarge { quote: d(60.0), cap: d(50.0) }.text(),
        "order of 60.00 exceeds the 50.00 per-order cap"
    );
    assert_eq!(
        Refusal::DailyNotional { would_be: d(210.0), cap: d(200.0) }.text(),
        "would put the day at 210.00, over the 200.00 cap"
    );
    assert_eq!(
        Refusal::DailyOrders { placed: 10, cap: 10 }.text(),
        "10 orders already placed today, cap is 10"
    );
    assert_eq!(
        Refusal::Slippage { moved_pct: d(3.0), cap: d(2.0) }.text(),
        "the venue price moved 3.00% from the decision, cap is 2.00%"
    );
    assert_eq!(Refusal::BadPrice.text(), "a price was zero or negative");
}

#[test]
fn mode_parsing_accepts_the_spellings_a_config_produces() {
    assert_eq!(Mode::parse("off").unwrap(), Mode::Off);
    assert_eq!(Mode::parse("false").unwrap(), Mode::Off, "YAML 1.1 turns off into false");
    assert_eq!(Mode::parse("DRY").unwrap(), Mode::Dry);
    assert_eq!(Mode::parse("live").unwrap(), Mode::Live);
    assert!(Mode::parse("yes").is_err(), "ambiguous is refused, not guessed");
    assert_eq!(Mode::parse("yes").unwrap_err(), "mode must be off, dry or live, got \"yes\"");
    assert_eq!(Mode::default(), Mode::Off, "the default can never trade");
    assert_eq!(Mode::Dry.as_str(), "dry");
}

// ------------------------------------------------------------------ ids

#[test]
fn the_namespace_is_a_valid_uuid5() {
    assert_eq!(ids::REVX_NAMESPACE[6] >> 4, 5);
    assert_eq!(ids::REVX_NAMESPACE[8] >> 6, 0b10);
}

#[test]
fn coercion_is_idempotent() {
    let long = "csVERYLONGSYMBOLNAMEb944444r1u93041u93042";
    let once = ids::safe_cid(long).unwrap();
    assert_eq!(once.len(), 36);
    assert_eq!(ids::safe_cid(&once).unwrap(), once);
    let g = ids::safe_gate_text(long).unwrap();
    assert_eq!(ids::safe_gate_text(&g).unwrap(), g);
    let r = ids::safe_revx_cid("csAAAb1r1").unwrap();
    assert_eq!(ids::safe_revx_cid(&r).unwrap(), r);
}

#[test]
fn an_empty_id_is_refused_everywhere() {
    assert!(ids::safe_cid("").is_err());
    assert!(ids::gate_cid("t-").is_err());
    assert!(ids::safe_revx_cid("").is_err());
}

#[test]
fn a_uuid_reads_back_and_hashes_its_name() {
    // The name-based id of "www.example.com" under the DNS namespace.
    let dns: [u8; 16] = [
        0x6b, 0xa7, 0xb8, 0x10, 0x9d, 0xad, 0x11, 0xd1, 0x80, 0xb4, 0x00, 0xc0, 0x4f, 0xd4, 0x30, 0xc8,
    ];
    let u = ids::uuid5(&dns, "www.example.com");
    assert_eq!(ids::fmt_uuid(u), "2ed6657d-e927-568b-95e1-2665a8aea6a2");
    assert_eq!(ids::parse_uuid("2ed6657d-e927-568b-95e1-2665a8aea6a2"), Some(u));
    assert_eq!(ids::parse_uuid("2ED6657D-E927-568B-95E1-2665A8AEA6A2"), Some(u));
    assert_eq!(ids::parse_uuid("2ed6657d"), None);
}

// ------------------------------------------------------------------ journal

const T0: f64 = 1_700_000_000.0;

fn order(cid: &str, status: &str, ts: f64) -> Order {
    Order {
        client_id: cid.into(),
        sym: "AAA".into(),
        exch: "gate".into(),
        pair: "AAA_USDT".into(),
        side: "buy".into(),
        kind: "ladder_buy".into(),
        status: status.into(),
        price: Some(d(10.0)),
        base: Some(d(1.0)),
        quote: Some(d(10.0)),
        ts: Some(d(ts)),
        ..Default::default()
    }
}

#[test]
fn the_same_intent_in_one_window_is_the_same_id() {
    let a = client_id("AAA", Side::Buy, d(T0), 1);
    assert_eq!(a, client_id("AAA", Side::Buy, d(T0 + 600.0), 1));
    assert_ne!(a, client_id("AAA", Side::Buy, d(T0 + 1801.0), 1));
    assert_ne!(a, client_id("AAA", Side::Sell, d(T0), 1));
    assert_ne!(a, client_id("AAA", Side::Buy, d(T0), 2));
}

#[test]
fn a_crash_retry_cannot_place_a_second_order() {
    let mut j = Journal::default();
    let cid = client_id("AAA", Side::Buy, d(T0), 1);
    assert!(j.insert_new(order(&cid, "pending", T0)));
    assert!(!j.insert_new(order(&cid, "pending", T0 + 60.0)));
    assert_eq!(j.orders.len(), 1);
}

#[test]
fn suffixes_never_chain_and_never_outgrow_the_cap() {
    let base = client_id("AAA", Side::Sell, d(T0), 2);
    let mut cid = base.clone();
    for i in 1..40 {
        cid = suffixed(&cid, &format!("u{}", 90000 + i));
        assert!(cid.len() <= MAX_CLIENT_ID_LEN, "{cid}");
        assert_eq!(root_id(&cid), base);
    }
}

#[test]
fn record_replaces_in_place_and_keeps_the_order_of_rows() {
    let mut j = Journal::default();
    j.record(order("a", "pending", T0));
    j.record(order("b", "pending", T0));
    j.record(order("a", "open", T0));
    let ids: Vec<&str> = j.orders.keys().map(String::as_str).collect();
    assert_eq!(ids, ["a", "b"]);
    assert_eq!(j.get("a").unwrap().status, "open");
    assert!(j.has("b"));
    assert!(!j.has("c"));
    let rows = j.rows();
    assert_eq!(rows.len(), 2);
    assert_eq!(rows[1].client_id, "b");
}

#[test]
fn daily_totals_ignore_failed_placements() {
    let mut j = Journal::default();
    j.record(order("a", "open", T0));
    j.record(order("b", "filled", T0 + 10.0));
    j.record(order("c", "error", T0 + 20.0));
    j.record(order("old", "filled", T0 - 86_400.0));
    assert_eq!(j.count_since(d(T0)), 2);
    assert_eq!(f(j.notional_since(d(T0))), 20.0);
}

#[test]
fn unknown_fields_survive_a_round_trip() {
    let custom = obj(vec![("x", Json::Arr(vec![Json::Int(1), Json::Int(2)]))]);
    let raw = obj(vec![
        ("client_id", Json::text("a")),
        ("status", Json::text("open")),
        ("custom", custom),
        ("base", Json::Null),
    ]);
    let o = read_row(&raw).unwrap();
    let mut j = Journal::default();
    j.record(o);
    let back = j.get("a").unwrap().to_json();
    assert_eq!(
        back.get("custom").unwrap().get("x").unwrap().dumps(None),
        "[1, 2]"
    );
    assert!(back.get("base").is_none(), "null and absent read the same");
}

#[test]
fn finished_cancels_are_archived_and_open_rows_stay() {
    let mut j = Journal::default();
    let mut old = order("gone", "canceled", T0 - 40.0 * 86_400.0);
    old.swept = Some(true);
    j.record(old);
    j.record(order("open", "open", T0 - 40.0 * 86_400.0));
    j.record(order("filled", "filled", T0 - 40.0 * 86_400.0));
    let moved = j.archive_old(d(30.0), d(T0));
    assert_eq!(moved.len(), 1);
    assert_eq!(moved[0].client_id, "gone");
    assert_eq!(j.orders.len(), 2);
    assert_eq!(j.open_orders(None).len(), 1);
}

// ------------------------------------------------------------------ keys

#[test]
fn the_environment_wins_over_a_file() {
    let file = KeyFile::Text("KEY=filekey\nSECRET=filesecret\n".into());
    let c = keys::load("testv", Some("envkey"), Some("envsecret"), "/x.env", &file).expect("env is enough");
    assert_eq!(c.key, "envkey");
}

#[test]
fn a_missing_credential_says_exactly_what_to_set() {
    let e = keys::load("nopev", None, None, "/definitely/not/here.env", &KeyFile::Absent).unwrap_err();
    let m = e.text();
    assert!(m.contains("RUNGBOT_NOPEV_KEY"), "{m}");
    assert!(m.contains("mode 600"), "{m}");
}

#[test]
fn a_world_readable_key_file_is_refused_not_warned_about() {
    let file = match keys::opened(0o100644) {
        Some(f) => f,
        None => panic!("a mode of 644 is shared"),
    };
    let e = keys::load("gate", None, None, "world-readable.env", &file).unwrap_err();
    assert!(matches!(e, KeyError::BadPermissions { .. }), "{}", e.text());
    assert!(e.text().contains("chmod 600"), "{}", e.text());
    assert!(keys::opened(0o100600).is_none());
}

#[test]
fn a_private_key_file_loads_and_tolerates_quoting() {
    let file = KeyFile::Text("# gate\nKEY=\"abc\"\nSECRET='def'\n".into());
    let c = keys::load("gate", None, None, "private.env", &file).expect("0600 is fine");
    assert_eq!(c.key, "abc");
    assert_eq!(c.secret, "def", "quotes a UI added are stripped");
}

#[test]
fn a_file_without_a_pair_is_malformed_rather_than_half_loaded() {
    let file = KeyFile::Text("KEY=only\n".into());
    assert!(matches!(
        keys::load("gate", None, None, "half.env", &file),
        Err(KeyError::Malformed(_))
    ));
    assert!(matches!(
        keys::load("gate", None, None, "odd.env", &KeyFile::NoText("gone".into())),
        Err(KeyError::Unreadable(_))
    ));
}

#[test]
fn the_default_path_is_under_the_config_dir_not_next_to_the_watchlist() {
    assert_eq!(
        keys::default_key_path(Some("/tmp/cfg"), Some("/home/u"), "gate"),
        "/tmp/cfg/rungbot/gate.env"
    );
    assert_eq!(
        keys::default_key_path(None, Some("/home/u"), "gate"),
        "/home/u/.config/rungbot/gate.env"
    );
}

// ------------------------------------------------------------------ http

fn post() -> Request {
    Request {
        method: "POST".into(),
        url: "https://example.invalid/order".into(),
        headers: vec![],
        body: Some("{}".into()),
        timeout_s: 1,
    }
}

#[test]
fn the_real_transport_refuses_everything_offline() {
    let e = http::refusal(&post(), true).unwrap();
    assert!(matches!(e, SendError::Offline(_)), "{e:?}");
    assert!(http::refusal(&post(), false).is_none());
}

#[test]
fn the_offline_switch_reads_like_a_flag() {
    for (v, on) in [("1", true), ("yes", true), ("0", false), ("false", false), ("", false)] {
        assert_eq!(http::offline_flag(Some(v)), on, "{v:?}");
    }
    assert!(!http::offline_flag(None));
}

fn refused_offline(venue: &str, req: &Request) -> bool {
    let sent: Result<Response, SendError> = match http::refusal(req, true) {
        Some(e) => Err(e),
        None => Ok(Response { status: 200, body: String::new() }),
    };
    match http::settle(venue, &sent, &Err(String::new())) {
        Ok(_) => false,
        Err(e) => e.is_offline(),
    }
}

#[test]
fn the_offline_guard_covers_every_binance_call() {
    let b = Binance { creds: Credentials { key: "k".into(), secret: "s".into() } };
    assert!(refused_offline("binance", &b.signed("GET", "/api/v3/account", vec![], d(1.0))));
    assert!(refused_offline("binance", &binance::public_call("/api/v3/ticker/price?symbol=AAAUSDC")));
    let buy = binance::market_buy_params("AAAUSDC", d(10.0), Some("csAAAb1r1")).unwrap();
    assert!(refused_offline("binance", &b.signed("POST", "/api/v3/order", buy, d(1.0))));
}

#[test]
fn the_offline_guard_covers_every_gate_call() {
    let g = test_gate();
    assert!(refused_offline("gate", &g.signed("GET", "/spot/accounts", "", "", d(1.0))));
    assert!(refused_offline("gate", &gate::public_call("/spot/currency_pairs/AAA_USDT")));
    let info = PairInfo { amount_precision: 2, price_precision: 2, min_base: d(0.01), min_quote: d(1.0) };
    let body = gate::limit_body("buy", "AAA_USDT", d(1.0), d(1.0), Some("x"), info).unwrap();
    assert!(refused_offline("gate", &g.signed("POST", "/spot/orders", "", &body, d(1.0))));
    let other = VenueError::new("gate", Some(403), "GET /x -> 403 IP not allowed");
    assert!(!other.is_offline());
}

#[test]
fn replies_keep_their_status_and_their_body() {
    let ok: Result<Response, SendError> = Ok(Response { status: 200, body: "{\"a\": 1}".into() });
    let r = http::settle("gate", &ok, &Ok(obj(vec![("a", Json::Int(1))]))).unwrap();
    assert_eq!(r.status, Some(200));
    assert_eq!(r.json_or_null().dumps(None), "{\"a\": 1}");
    assert_eq!(r.status_str(), "200");
    let bad: Result<Response, SendError> = Ok(Response { status: 200, body: "<html>".into() });
    let r = http::settle("gate", &bad, &Err("expected value".into())).unwrap();
    assert_eq!(r.status, None);
    assert!(r.json_or_null().is_null());
    let down: Result<Response, SendError> = Err(SendError::Network("reset".into()));
    let r = http::settle("gate", &down, &Err(String::new())).unwrap();
    assert_eq!(r.status, None);
    assert!(r.body_str().contains("reset"), "{}", r.body_str());
}

// ------------------------------------------------------------------ venues

#[test]
fn the_query_is_signed_with_time_and_window_appended() {
    let b = Binance { creds: Credentials { key: "k".into(), secret: "s".into() } };
    let q = b.signed_query(vec![("symbol".into(), "AAAUSDC".into())], 1_700_000_000_000);
    assert!(q.starts_with("symbol=AAAUSDC&timestamp=1700000000000&recvWindow=5000&signature="));
    assert_eq!(q.rsplit('=').next().unwrap().len(), 64, "HMAC-SHA256 hex");
}

#[test]
fn parameters_are_never_a_body() {
    let b = Binance { creds: Credentials { key: "k".into(), secret: "s".into() } };
    let r = b.order(vec![("symbol".into(), "AAAUSDC".into())], d(1_700_000_000.0));
    assert!(r.body.is_none());
    assert_eq!(r.method, "POST");
    let signed = b.signed_query(vec![("symbol".into(), "AAAUSDC".into())], 1_700_000_000_000);
    assert!(r.url.ends_with(&format!("{}?{signed}", binance::ORDER)), "{}", r.url);
    assert_eq!(r.headers[0], ("X-MBX-APIKEY".to_string(), "k".to_string()));
}

#[test]
fn codes_are_those_of_the_published_vectors() {
    assert_eq!(
        crypto::hmac_sha256_hex("key", "The quick brown fox jumps over the lazy dog"),
        "f7bc83f430538424b13298e6aa6fb143ef4d59a14946175997479dbc2d1a3cd8"
    );
    assert_eq!(
        crypto::hmac_sha512_hex("key", "The quick brown fox jumps over the lazy dog"),
        "b42af09057bac1e2d41708e48a902e09b5ff7f12ab428a4fe86653c73dd248fb82f948a549f7b791a5b41915ee4d1ec3935357e4e2317250d0372afa2ebeeb3a"
    );
    assert_eq!(
        crypto::sha512_hex("abc"),
        "ddaf35a193617abacc417349ae20413112e6fa4e89a97ea20a9eeee64b55d39a2192992a274fc1a836ba3c23a3feebbd454d4423643ce80e2a9ac94fa54ca49f"
    );
}

fn test_gate() -> Gate {
    Gate { creds: Credentials { key: "testkey".into(), secret: "testsecret".into() } }
}

fn sign(h: Vec<(String, String)>) -> String {
    h.into_iter().find(|(n, _)| n == "SIGN").unwrap().1
}

#[test]
fn the_signature_covers_method_path_query_body_and_time() {
    let g = test_gate();
    let base = sign(g.headers("GET", "/p", "", "", 1));
    assert_eq!(base.len(), 128);
    for other in [
        g.headers("POST", "/p", "", "", 1),
        g.headers("GET", "/q", "", "", 1),
        g.headers("GET", "/p", "a=1", "", 1),
        g.headers("GET", "/p", "", "{}", 1),
        g.headers("GET", "/p", "", "", 2),
    ] {
        assert_ne!(base, sign(other));
    }
    assert_eq!(base, sign(g.headers("GET", "/p", "", "", 1)), "deterministic");
}

#[test]
fn amounts_round_down_so_an_order_never_exceeds_the_balance() {
    let info = PairInfo {
        amount_precision: 2,
        price_precision: 4,
        min_base: d(0.01),
        min_quote: d(1.0),
    };
    assert_eq!(info.round_amount(d(1.239)), d(1.23));
    assert_eq!(info.round_price(d(10.99999)), d(10.9999));
    assert_eq!(info.round_amount(d(0.001)), d(0.0));
}

fn reply(j: Json) -> Reply {
    let text = j.dumps(None);
    Reply { status: Some(200), json: Some(j), text }
}

#[test]
fn a_gate_market_buy_is_counted_in_base() {
    let o = obj(vec![
        ("id", Json::text("7")),
        ("text", Json::text("t-csAAAb1r1")),
        ("type", Json::text("market")),
        ("side", Json::text("buy")),
        ("status", Json::text("closed")),
        ("amount", Json::text("100")),
        ("left", Json::text("0.5")),
        ("filled_total", Json::text("99.5")),
        ("avg_deal_price", Json::text("9.95")),
        ("fee", Json::text("0.1")),
        ("fee_currency", Json::text("AAA")),
    ]);
    let p = gate::parse_order(&o).unwrap();
    assert_eq!(p.order_id, "7");
    assert_eq!(f(p.quote), 99.5);
    assert_eq!(f(p.base_qty.unwrap()), 10.0);
    assert_eq!(p.client_id, "csAAAb1r1");
}

#[test]
fn gate_pairs_and_tickers_read() {
    let info = gate::read_pair_info(
        "AAA_USDT",
        &reply(obj(vec![
            ("amount_precision", Json::Int(3)),
            ("precision", Json::Int(5)),
            ("min_base_amount", Json::text("0.01")),
            ("min_quote_amount", Json::text("3")),
        ])),
    )
    .unwrap();
    assert_eq!(info.amount_precision, 3);
    assert_eq!(info.price_precision, 5);
    let l = gate::limits(info);
    assert_eq!(f(l.min_base), 0.01);
    assert_eq!(f(l.min_quote), 3.0);
    let t = reply(Json::Arr(vec![obj(vec![
        ("last", Json::text("12.5")),
        ("change_percentage", Json::text("-3.5")),
    ])]));
    let (price, chg) = gate::read_ticker("AAA_USDT", &t).unwrap();
    assert_eq!((f(price), f(chg)), (12.5, -3.5));
    assert_eq!(f(gate::read_price("AAA_USDT", &t).unwrap()), 12.5);
    let refused = Reply { status: Some(404), json: None, text: "no such pair".into() };
    let e = gate::read_price("AAA_USDT", &refused).unwrap_err();
    assert_eq!(e.status, Some(404));
    assert!(e.message.contains("no such pair"), "{}", e.message);
}

#[test]
fn binance_orders_round_to_the_filters() {
    let fl = Filters { step: d(0.01), min_qty: d(0.01), min_notional: d(5.0), tick: d(0.1) };
    assert_eq!(f(binance::round_qty(fl, d(1.239))), 1.23);
    assert_eq!(f(binance::round_price(fl, d(10.19))), 101.0 * 0.1);
    let l = binance::limits(fl);
    assert_eq!((f(l.min_base), f(l.min_quote)), (0.01, 5.0));
    let p = binance::order_params("AAAUSDC", "12");
    assert_eq!(p, vec![("symbol".to_string(), "AAAUSDC".to_string()), ("orderId".to_string(), "12".to_string())]);
}

#[test]
fn there_are_three_venues() {
    assert_eq!(clients::venues(), ["gate", "revx", "binance"]);
    assert_eq!(clients::known_venue("revx").unwrap(), "revx");
    assert_eq!(
        clients::known_venue("kraken").unwrap_err(),
        "unknown venue \"kraken\": expected one of gate, revx, binance"
    );
}

// ------------------------------------------------------------------ text

#[test]
fn float_repr_switches_to_scientific_where_python_does() {
    assert_eq!(pyfmt::float_repr(d(1e-4)), "0.0001");
    assert_eq!(pyfmt::float_repr(d(1e-5)), "1e-05");
    assert_eq!(pyfmt::float_repr(d(1e16)), "1e+16");
    assert_eq!(pyfmt::float_repr(d(1234567890123456.0)), "1234567890123456.0");
    assert_eq!(pyfmt::float_repr(d(-2.5)), "-2.5");
    assert_eq!(pyfmt::float_repr(d(100.0)), "100.0");
}

#[test]
fn a_dict_body_prints_as_its_repr_in_document_order() {
    assert_eq!(
        pyfmt::body_str(r#"{"label": "X", "a": [1, 2.0, true, null]}"#),
        "{'label': 'X', 'a': [1, 2.0, True, None]}"
    );
    assert_eq!(pyfmt::body_str("<html>"), "<html>");
    assert_eq!(pyfmt::body_str(r#""quoted""#), "quoted");
}

#[test]
fn floats_parse_like_python() {
    assert_eq!(pyfmt::parse_float(" 1.5 ").unwrap(), d(1.5));
    assert_eq!(pyfmt::parse_float("1_0").unwrap(), d(10.0));
    assert!(pyfmt::parse_float("abc").is_err());
    assert!(pyfmt::parse_float("0x10").is_err());
    assert!(pyfmt::parse_float("inf").unwrap().is_infinite());
}

#[test]
fn bodies_are_escaped_and_queries_encoded() {
    assert_eq!(pyfmt::json_str("\u{fc}\"\u{1F680}\n"), "\"\\u00fc\\\"\\ud83d\\ude80\\n\"");
    assert_eq!(
        pyfmt::urlencode(&vec![("a b".to_string(), "x&y/\u{e9}".to_string())]),
        "a+b=x%26y%2F%C3%A9"
    );
    assert_eq!(pyfmt::repr_str("it's"), "\"it's\"");
    assert_eq!(pyfmt::head("abcdef", 3), "abc");
}
