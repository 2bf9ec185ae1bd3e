use rungbot::decimal;
use rungbot::double::Double;
use rungbot::pyfmt as exec_fmt;
use rungbot::watch::pyfmt;

fn d(x: f64) -> Double {
    Double { bits: x.to_bits() }
}

fn f(x: Double) -> f64 {
    f64::from_bits(x.bits)
}

fn alike(a: f64, b: f64) -> bool {
    (a.is_nan() && b.is_nan()) || a.to_bits() == b.to_bits()
}

struct Rng(u64);

impl Rng {
    fn next(&mut self) -> u64 {
        self.0 ^= self.0 << 13;
        self.0 ^= self.0 >> 7;
        self.0 ^= self.0 << 17;
        self.0
    }

    /// A number that is a price, an amount, a count, a tiny or a huge value, or any bit pattern.
    fn number(&mut self) -> f64 {
        let a = self.next();
        match a % 6 {
            0 => f64::from_bits(self.next()),
            1 => (self.next() % 1_000_000) as f64 / 100.0,
            2 => -((self.next() % 100_000_000) as f64 / 1e8),
            3 => (self.next() % 4096) as f64,
            4 => f64::from_bits(self.next() % (1 << 53)),
            _ => (self.next() as i64) as f64,
        }
    }
}

fn specials() -> Vec<f64> {
    vec![
        0.0,
        -0.0,
        1.0,
        -1.0,
        0.1,
        0.5,
        1.5,
        2.5,
        -2.5,
        f64::MIN_POSITIVE,
        f64::from_bits(1),
        f64::from_bits((1 << 52) - 1),
        f64::MAX,
        f64::MIN,
        f64::INFINITY,
        f64::NEG_INFINITY,
        f64::NAN,
        9007199254740993.0,
        1e16,
        1e22,
        1e23,
        1e-5,
        123456.789,
    ]
}

fn check_pair(x: f64, y: f64) {
    assert!(alike(f(d(x).plus(d(y))), x + y), "{x:?} + {y:?}");
    assert!(alike(f(d(x).minus(d(y))), x - y), "{x:?} - {y:?}");
    assert!(alike(f(d(x).times(d(y))), x * y), "{x:?} * {y:?}");
    assert!(alike(f(d(x).over(d(y))), x / y), "{x:?} / {y:?}");
    assert_eq!(d(x).lt(d(y)), x < y, "{x:?} < {y:?}");
    assert_eq!(d(x).le(d(y)), x <= y, "{x:?} <= {y:?}");
    assert_eq!(d(x).same(d(y)), x == y, "{x:?} == {y:?}");
    let low = f(d(x).min(d(y)));
    let high = f(d(x).max(d(y)));
    assert!(low == x.min(y) || alike(low, x.min(y)), "min {x:?} {y:?}");
    assert!(high == x.max(y) || alike(high, x.max(y)), "max {x:?} {y:?}");
    assert_eq!(d(x).ranks_before(d(y)), x.total_cmp(&y).is_lt(), "{x:?} ranks before {y:?}");
}

fn check_one(x: f64) {
    assert!(alike(f(d(x).abs()), x.abs()), "abs {x:?}");
    assert!(alike(f(d(x).negated()), -x), "neg {x:?}");
    assert!(alike(f(d(x).trunc()), x.trunc()), "trunc {x:?}");
    assert!(alike(f(d(x).floor()), x.floor()), "floor {x:?}");
    assert_eq!(d(x).to_i64(), x as i64, "{x:?} as i64");
    assert_eq!(d(x).to_u64(), x as u64, "{x:?} as u64");
    assert_eq!(d(x).to_i128(), x as i128, "{x:?} as i128");
    assert_eq!(d(x).is_nan(), x.is_nan());
    assert_eq!(d(x).is_finite(), x.is_finite());
    assert_eq!(d(x).is_infinite(), x.is_infinite());
}

#[test]
fn arithmetic_rounds_like_the_machine() {
    let s = specials();
    for x in &s {
        check_one(*x);
        for y in &s {
            check_pair(*x, *y);
        }
    }
    let mut r = Rng(0x9e37_79b9_7f4a_7c15);
    for _ in 0..1500 {
        let (x, y) = (r.number(), r.number());
        check_one(x);
        check_pair(x, y);
    }
}

#[test]
fn remainders_keep_their_sign_rules() {
    for (x, y) in [(7.5, 2.0), (-7.5, 2.0), (7.5, -2.0), (0.3, 0.1), (1e9 + 0.25, 86400.0), (-1.0, 3.0)] {
        assert!(alike(f(d(x).rem(d(y))), x % y), "{x:?} % {y:?}");
        assert!(alike(f(d(x).rem_euclid(d(y))), x.rem_euclid(y)), "{x:?} rem_euclid {y:?}");
    }
}

#[test]
fn whole_numbers_convert_to_the_nearest() {
    for i in [0i64, 1, -1, 9007199254740993, i64::MAX, i64::MIN, 1725408000] {
        assert!(alike(f(Double::of_int(i)), i as f64), "{i}");
        assert!(alike(f(Double::of_i128(i as i128 * 3)), (i as i128 * 3) as f64), "{i}");
    }
    assert!(alike(f(Double::of_u128(u128::MAX)), u128::MAX as f64));
    assert!(alike(f(Double::of_i128(i128::MIN)), i128::MIN as f64));
    assert!(alike(f(Double::of_count(4096)), 4096.0));
    assert!(alike(f(Double::ratio(1, 10)), 0.1));
    assert!(alike(f(Double::ratio(999, 1000)), 0.999));
}

#[test]
fn text_reads_as_the_nearest_number() {
    for t in [
        "0", "-0", "1", "0.1", "1e23", "1e22", "9007199254740993", "123456.789", "5e-324", "2e-324",
        "1.7976931348623157e308", "1.7976931348623159e308", "1e400", "1e-400", ".5", "5.", "-2.5e3",
        "0.000001", "72057594037927945", "+4.25",
    ] {
        let v: Vec<char> = t.chars().collect();
        let got = decimal::read_number(&v);
        assert!(got.is_some(), "{t}");
        let want: f64 = t.parse().unwrap();
        assert!(alike(f(got.unwrap()), want), "{t}: {:?}", f(got.unwrap()));
    }
    for t in ["", ".", "e5", "1e", "--1", "1 ", "0x10", "1.2.3"] {
        let v: Vec<char> = t.chars().collect();
        assert!(decimal::read_number(&v).is_none(), "{t}");
    }
}

#[test]
fn text_reads_back_as_the_same_number() {
    let mut r = Rng(88172645463325252);
    let mut seen = specials();
    for _ in 0..120 {
        seen.push(r.number());
    }
    for x in seen {
        if x.is_finite() {
            let t = pyfmt::repr(d(x));
            let back: f64 = t.parse().unwrap();
            assert!(alike(back, x), "{t}");
            assert_eq!(exec_fmt::plain(d(x)), format!("{x}"), "{x:?}");
            for p in [0usize, 1, 2, 4, 6, 8] {
                assert_eq!(exec_fmt::fixed(d(x), p), format!("{x:.p$}"), "{x:?} to {p} places");
            }
        }
    }
    assert_eq!(exec_fmt::plain(d(f64::NAN)), "NaN");
    assert_eq!(exec_fmt::plain(d(f64::NEG_INFINITY)), "-inf");
    assert_eq!(exec_fmt::fixed(d(f64::NAN), 2), "NaN");
    assert_eq!(pyfmt::fixed(d(f64::NAN), 2), "nan");
}

#[test]
fn whole_numbers_read_within_their_range() {
    assert_eq!(decimal::read_i64("-9223372036854775808"), Some(i64::MIN));
    assert_eq!(decimal::read_i64("9223372036854775808"), None);
    assert_eq!(decimal::read_i64("+12"), Some(12));
    assert_eq!(decimal::read_u64("18446744073709551615"), Some(u64::MAX));
    assert_eq!(decimal::read_u64("-1"), None);
    assert_eq!(decimal::read_i128("170141183460469231731687303715884105727"), Some(i128::MAX));
    assert_eq!(decimal::read_i128("170141183460469231731687303715884105728"), None);
}
