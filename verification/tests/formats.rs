use rungbot::double::Double;
use rungbot::watch::pyfmt;
use rungbot::watch::textwrap;

fn d(x: f64) -> Double {
    Double { bits: x.to_bits() }
}

/// A number, then how it reads with 0, 2 and 8 decimals, with a sign, grouped with 0 and 2
/// decimals, with six and three significant digits, grouped with six, in full, and rounded to
/// 2 and 8 decimals.
const FORMATS: [(f64, [&str; 12]); 66] = [
    (0.0, ["0", "0.00", "0.00000000", "+0.00", "0", "0.00", "0", "0", "0", "0.0", "0.0", "0.0"]),
    (-0.0, ["-0", "-0.00", "-0.00000000", "-0.00", "-0", "-0.00", "-0", "-0", "-0", "-0.0", "-0.0", "-0.0"]),
    (0.5, ["0", "0.50", "0.50000000", "+0.50", "0", "0.50", "0.5", "0.5", "0.5", "0.5", "0.5", "0.5"]),
    (1.5, ["2", "1.50", "1.50000000", "+1.50", "2", "1.50", "1.5", "1.5", "1.5", "1.5", "1.5", "1.5"]),
    (2.5, ["2", "2.50", "2.50000000", "+2.50", "2", "2.50", "2.5", "2.5", "2.5", "2.5", "2.5", "2.5"]),
    (0.125, ["0", "0.12", "0.12500000", "+0.12", "0", "0.12", "0.125", "0.125", "0.125", "0.125", "0.12", "0.125"]),
    (1234.5678, ["1235", "1234.57", "1234.56780000", "+1234.57", "1,235", "1,234.57", "1234.57", "1.23e+03", "1,234.57", "1234.5678", "1234.57", "1234.5678"]),
    (-1234.5678, ["-1235", "-1234.57", "-1234.56780000", "-1234.57", "-1,235", "-1,234.57", "-1234.57", "-1.23e+03", "-1,234.57", "-1234.5678", "-1234.57", "-1234.5678"]),
    (52000.5, ["52000", "52000.50", "52000.50000000", "+52000.50", "52,000", "52,000.50", "52000.5", "5.2e+04", "52,000.5", "52000.5", "52000.5", "52000.5"]),
    (99999.5, ["100000", "99999.50", "99999.50000000", "+99999.50", "100,000", "99,999.50", "99999.5", "1e+05", "99,999.5", "99999.5", "99999.5", "99999.5"]),
    (999999.5, ["1000000", "999999.50", "999999.50000000", "+999999.50", "1,000,000", "999,999.50", "1e+06", "1e+06", "1e+06", "999999.5", "999999.5", "999999.5"]),
    (1e+16, ["10000000000000000", "10000000000000000.00", "10000000000000000.00000000", "+10000000000000000.00", "10,000,000,000,000,000", "10,000,000,000,000,000.00", "1e+16", "1e+16", "1e+16", "1e+16", "1e+16", "1e+16"]),
    (1000000000000000.0, ["1000000000000000", "1000000000000000.00", "1000000000000000.00000000", "+1000000000000000.00", "1,000,000,000,000,000", "1,000,000,000,000,000.00", "1e+15", "1e+15", "1e+15", "1000000000000000.0", "1000000000000000.0", "1000000000000000.0"]),
    (123456789.0, ["123456789", "123456789.00", "123456789.00000000", "+123456789.00", "123,456,789", "123,456,789.00", "1.23457e+08", "1.23e+08", "1.23457e+08", "123456789.0", "123456789.0", "123456789.0"]),
    (0.00147, ["0", "0.00", "0.00147000", "+0.00", "0", "0.00", "0.00147", "0.00147", "0.00147", "0.00147", "0.0", "0.00147"]),
    (1e-05, ["0", "0.00", "0.00001000", "+0.00", "0", "0.00", "1e-05", "1e-05", "1e-05", "1e-05", "0.0", "1e-05"]),
    (1.234e-07, ["0", "0.00", "0.00000012", "+0.00", "0", "0.00", "1.234e-07", "1.23e-07", "1.234e-07", "1.234e-07", "0.0", "1.2e-07"]),
    (40000.0, ["40000", "40000.00", "40000.00000000", "+40000.00", "40,000", "40,000.00", "40000", "4e+04", "40,000", "40000.0", "40000.0", "40000.0"]),
    (0.1, ["0", "0.10", "0.10000000", "+0.10", "0", "0.10", "0.1", "0.1", "0.1", "0.1", "0.1", "0.1"]),
    (0.6666666666666666, ["1", "0.67", "0.66666667", "+0.67", "1", "0.67", "0.666667", "0.667", "0.666667", "0.6666666666666666", "0.67", "0.66666667"]),
    (1e+22, ["10000000000000000000000", "10000000000000000000000.00", "10000000000000000000000.00000000", "+10000000000000000000000.00", "10,000,000,000,000,000,000,000", "10,000,000,000,000,000,000,000.00", "1e+22", "1e+22", "1e+22", "1e+22", "1e+22", "1e+22"]),
    (5e-324, ["0", "0.00", "0.00000000", "+0.00", "0", "0.00", "4.94066e-324", "4.94e-324", "4.94066e-324", "5e-324", "0.0", "0.0"]),
    (1.7976931348623157e+308, ["179769313486231570814527423731704356798070567525844996598917476803157260780028538760589558632766878171540458953514382464234321326889464182768467546703537516986049910576551282076245490090389328944075868508455133942304583236903222948165808559332123348274797826204144723168738177180919299881250404026184124858368", "179769313486231570814527423731704356798070567525844996598917476803157260780028538760589558632766878171540458953514382464234321326889464182768467546703537516986049910576551282076245490090389328944075868508455133942304583236903222948165808559332123348274797826204144723168738177180919299881250404026184124858368.00", "179769313486231570814527423731704356798070567525844996598917476803157260780028538760589558632766878171540458953514382464234321326889464182768467546703537516986049910576551282076245490090389328944075868508455133942304583236903222948165808559332123348274797826204144723168738177180919299881250404026184124858368.00000000", "+179769313486231570814527423731704356798070567525844996598917476803157260780028538760589558632766878171540458953514382464234321326889464182768467546703537516986049910576551282076245490090389328944075868508455133942304583236903222948165808559332123348274797826204144723168738177180919299881250404026184124858368.00", "179,769,313,486,231,570,814,527,423,731,704,356,798,070,567,525,844,996,598,917,476,803,157,260,780,028,538,760,589,558,632,766,878,171,540,458,953,514,382,464,234,321,326,889,464,182,768,467,546,703,537,516,986,049,910,576,551,282,076,245,490,090,389,328,944,075,868,508,455,133,942,304,583,236,903,222,948,165,808,559,332,123,348,274,797,826,204,144,723,168,738,177,180,919,299,881,250,404,026,184,124,858,368", "179,769,313,486,231,570,814,527,423,731,704,356,798,070,567,525,844,996,598,917,476,803,157,260,780,028,538,760,589,558,632,766,878,171,540,458,953,514,382,464,234,321,326,889,464,182,768,467,546,703,537,516,986,049,910,576,551,282,076,245,490,090,389,328,944,075,868,508,455,133,942,304,583,236,903,222,948,165,808,559,332,123,348,274,797,826,204,144,723,168,738,177,180,919,299,881,250,404,026,184,124,858,368.00", "1.79769e+308", "1.8e+308", "1.79769e+308", "1.7976931348623157e+308", "1.7976931348623157e+308", "1.7976931348623157e+308"]),
    (61234.567, ["61235", "61234.57", "61234.56700000", "+61234.57", "61,235", "61,234.57", "61234.6", "6.12e+04", "61,234.6", "61234.567", "61234.57", "61234.567"]),
    (0.0001, ["0", "0.00", "0.00010000", "+0.00", "0", "0.00", "0.0001", "0.0001", "0.0001", "0.0001", "0.0", "0.0001"]),
    (1.234e-05, ["0", "0.00", "0.00001234", "+0.00", "0", "0.00", "1.234e-05", "1.23e-05", "1.234e-05", "1.234e-05", "0.0", "1.234e-05"]),
    (-352334.5, ["-352334", "-352334.50", "-352334.50000000", "-352334.50", "-352,334", "-352,334.50", "-352334", "-3.52e+05", "-352,334", "-352334.5", "-352334.5", "-352334.5"]),
    (-210353.0, ["-210353", "-210353.00", "-210353.00000000", "-210353.00", "-210,353", "-210,353.00", "-210353", "-2.1e+05", "-210,353", "-210353.0", "-210353.0", "-210353.0"]),
    (-855127.42666491, ["-855127", "-855127.43", "-855127.42666491", "-855127.43", "-855,127", "-855,127.43", "-855127", "-8.55e+05", "-855,127", "-855127.42666491", "-855127.43", "-855127.42666491"]),
    (-811739.91612063, ["-811740", "-811739.92", "-811739.91612063", "-811739.92", "-811,740", "-811,739.92", "-811740", "-8.12e+05", "-811,740", "-811739.91612063", "-811739.92", "-811739.91612063"]),
    (-884002.15045059, ["-884002", "-884002.15", "-884002.15045059", "-884002.15", "-884,002", "-884,002.15", "-884002", "-8.84e+05", "-884,002", "-884002.15045059", "-884002.15", "-884002.15045059"]),
    (-570604.0, ["-570604", "-570604.00", "-570604.00000000", "-570604.00", "-570,604", "-570,604.00", "-570604", "-5.71e+05", "-570,604", "-570604.0", "-570604.0", "-570604.0"]),
    (-132709.0, ["-132709", "-132709.00", "-132709.00000000", "-132709.00", "-132,709", "-132,709.00", "-132709", "-1.33e+05", "-132,709", "-132709.0", "-132709.0", "-132709.0"]),
    (-518673.99974595, ["-518674", "-518674.00", "-518673.99974595", "-518674.00", "-518,674", "-518,674.00", "-518674", "-5.19e+05", "-518,674", "-518673.99974595", "-518674.0", "-518673.99974595"]),
    (-150961.62171497, ["-150962", "-150961.62", "-150961.62171497", "-150961.62", "-150,962", "-150,961.62", "-150962", "-1.51e+05", "-150,962", "-150961.62171497", "-150961.62", "-150961.62171497"]),
    (-752396.1, ["-752396", "-752396.10", "-752396.10000000", "-752396.10", "-752,396", "-752,396.10", "-752396", "-7.52e+05", "-752,396", "-752396.1", "-752396.1", "-752396.1"]),
    (261251.83146347, ["261252", "261251.83", "261251.83146347", "+261251.83", "261,252", "261,251.83", "261252", "2.61e+05", "261,252", "261251.83146347", "261251.83", "261251.83146347"]),
    (895417.88491401, ["895418", "895417.88", "895417.88491401", "+895417.88", "895,418", "895,417.88", "895418", "8.95e+05", "895,418", "895417.88491401", "895417.88", "895417.88491401"]),
    (171083.0, ["171083", "171083.00", "171083.00000000", "+171083.00", "171,083", "171,083.00", "171083", "1.71e+05", "171,083", "171083.0", "171083.0", "171083.0"]),
    (952510.0, ["952510", "952510.00", "952510.00000000", "+952510.00", "952,510", "952,510.00", "952510", "9.53e+05", "952,510", "952510.0", "952510.0", "952510.0"]),
    (113329.8, ["113330", "113329.80", "113329.80000000", "+113329.80", "113,330", "113,329.80", "113330", "1.13e+05", "113,330", "113329.8", "113329.8", "113329.8"]),
    (-420781.4, ["-420781", "-420781.40", "-420781.40000000", "-420781.40", "-420,781", "-420,781.40", "-420781", "-4.21e+05", "-420,781", "-420781.4", "-420781.4", "-420781.4"]),
    (81371.77106428, ["81372", "81371.77", "81371.77106428", "+81371.77", "81,372", "81,371.77", "81371.8", "8.14e+04", "81,371.8", "81371.77106428", "81371.77", "81371.77106428"]),
    (-383036.4, ["-383036", "-383036.40", "-383036.40000000", "-383036.40", "-383,036", "-383,036.40", "-383036", "-3.83e+05", "-383,036", "-383036.4", "-383036.4", "-383036.4"]),
    (-793888.57511282, ["-793889", "-793888.58", "-793888.57511282", "-793888.58", "-793,889", "-793,888.58", "-793889", "-7.94e+05", "-793,889", "-793888.57511282", "-793888.58", "-793888.57511282"]),
    (277826.94, ["277827", "277826.94", "277826.94000000", "+277826.94", "277,827", "277,826.94", "277827", "2.78e+05", "277,827", "277826.94", "277826.94", "277826.94"]),
    (-805139.0, ["-805139", "-805139.00", "-805139.00000000", "-805139.00", "-805,139", "-805,139.00", "-805139", "-8.05e+05", "-805,139", "-805139.0", "-805139.0", "-805139.0"]),
    (128736.58626677, ["128737", "128736.59", "128736.58626677", "+128736.59", "128,737", "128,736.59", "128737", "1.29e+05", "128,737", "128736.58626677", "128736.59", "128736.58626677"]),
    (-588082.57436135, ["-588083", "-588082.57", "-588082.57436135", "-588082.57", "-588,083", "-588,082.57", "-588083", "-5.88e+05", "-588,083", "-588082.57436135", "-588082.57", "-588082.57436135"]),
    (-144815.39, ["-144815", "-144815.39", "-144815.39000000", "-144815.39", "-144,815", "-144,815.39", "-144815", "-1.45e+05", "-144,815", "-144815.39", "-144815.39", "-144815.39"]),
    (-68796.2683, ["-68796", "-68796.27", "-68796.26830000", "-68796.27", "-68,796", "-68,796.27", "-68796.3", "-6.88e+04", "-68,796.3", "-68796.2683", "-68796.27", "-68796.2683"]),
    (3.6158235594456636e-06, ["0", "0.00", "0.00000362", "+0.00", "0", "0.00", "3.61582e-06", "3.62e-06", "3.61582e-06", "3.6158235594456636e-06", "0.0", "3.62e-06"]),
    (7943794815.224912, ["7943794815", "7943794815.22", "7943794815.22491169", "+7943794815.22", "7,943,794,815", "7,943,794,815.22", "7.94379e+09", "7.94e+09", "7.94379e+09", "7943794815.224912", "7943794815.22", "7943794815.224912"]),
    (7.798296305842437e-11, ["0", "0.00", "0.00000000", "+0.00", "0", "0.00", "7.7983e-11", "7.8e-11", "7.7983e-11", "7.798296305842437e-11", "0.0", "0.0"]),
    (5744.23710258671, ["5744", "5744.24", "5744.23710259", "+5744.24", "5,744", "5,744.24", "5744.24", "5.74e+03", "5,744.24", "5744.23710258671", "5744.24", "5744.23710259"]),
    (0.004951163595552556, ["0", "0.00", "0.00495116", "+0.00", "0", "0.00", "0.00495116", "0.00495", "0.00495116", "0.004951163595552556", "0.0", "0.00495116"]),
    (0.0007294452894392176, ["0", "0.00", "0.00072945", "+0.00", "0", "0.00", "0.000729445", "0.000729", "0.000729445", "0.0007294452894392176", "0.0", "0.00072945"]),
    (6.089590190364036e-11, ["0", "0.00", "0.00000000", "+0.00", "0", "0.00", "6.08959e-11", "6.09e-11", "6.08959e-11", "6.089590190364036e-11", "0.0", "0.0"]),
    (1.1806577825496212, ["1", "1.18", "1.18065778", "+1.18", "1", "1.18", "1.18066", "1.18", "1.18066", "1.1806577825496212", "1.18", "1.18065778"]),
    (0.0016496210364357322, ["0", "0.00", "0.00164962", "+0.00", "0", "0.00", "0.00164962", "0.00165", "0.00164962", "0.0016496210364357322", "0.0", "0.00164962"]),
    (151.98453466050478, ["152", "151.98", "151.98453466", "+151.98", "152", "151.98", "151.985", "152", "151.985", "151.98453466050478", "151.98", "151.98453466"]),
    (4.216983544767443e+17, ["421698354476744320", "421698354476744320.00", "421698354476744320.00000000", "+421698354476744320.00", "421,698,354,476,744,320", "421,698,354,476,744,320.00", "4.21698e+17", "4.22e+17", "4.21698e+17", "4.216983544767443e+17", "4.216983544767443e+17", "4.216983544767443e+17"]),
    (668215856534.3951, ["668215856534", "668215856534.40", "668215856534.39514160", "+668215856534.40", "668,215,856,534", "668,215,856,534.40", "6.68216e+11", "6.68e+11", "6.68216e+11", "668215856534.3951", "668215856534.4", "668215856534.3951"]),
    (5580757526533.747, ["5580757526534", "5580757526533.75", "5580757526533.74707031", "+5580757526533.75", "5,580,757,526,534", "5,580,757,526,533.75", "5.58076e+12", "5.58e+12", "5.58076e+12", "5580757526533.747", "5580757526533.75", "5580757526533.747"]),
    (0.008754778118308883, ["0", "0.01", "0.00875478", "+0.01", "0", "0.01", "0.00875478", "0.00875", "0.00875478", "0.008754778118308883", "0.01", "0.00875478"]),
    (0.03401223621911955, ["0", "0.03", "0.03401224", "+0.03", "0", "0.03", "0.0340122", "0.034", "0.0340122", "0.03401223621911955", "0.03", "0.03401224"]),
];

#[test]
fn numbers_read_in_every_format() {
    for (x, want) in FORMATS.iter() {
        let v = d(*x);
        let got = [
            pyfmt::fixed(v, 0),
            pyfmt::fixed(v, 2),
            pyfmt::fixed(v, 8),
            pyfmt::signed(v, 2),
            pyfmt::comma(v, 0),
            pyfmt::comma(v, 2),
            pyfmt::g6(v),
            pyfmt::g(v, 3),
            pyfmt::comma_g(v, 6),
            pyfmt::repr(v),
            pyfmt::repr(pyfmt::round(v, 2)),
            pyfmt::repr(pyfmt::round(v, 8)),
        ];
        for i in 0..12 {
            assert_eq!(got[i], want[i], "{x:?}, format {i}");
        }
    }
}

#[test]
fn paragraphs_wrap_at_words_and_hyphens() {
    let cases: Vec<(&str, usize, Vec<&str>)> = vec![
        ("The ladder speaks in percentages because it does not know your balances; converting that needs a budget you state explicitly.", 7, vec!["The", "ladder", "speaks", "in perc", "entages", "because", "it does", "not", "know", "your ba", "lances;", "convert", "ing", "that", "needs a", "budget", "you", "state e", "xplicit", "ly."]),
        ("The ladder speaks in percentages because it does not know your balances; converting that needs a budget you state explicitly.", 10, vec!["The ladder", "speaks in ", "percentage", "s because", "it does", "not know", "your", "balances;", "converting", "that needs", "a budget", "you state ", "explicitly", "."]),
        ("The ladder speaks in percentages because it does not know your balances; converting that needs a budget you state explicitly.", 20, vec!["The ladder speaks in", "percentages because", "it does not know", "your balances;", "converting that", "needs a budget you", "state explicitly."]),
        ("The ladder speaks in percentages because it does not know your balances; converting that needs a budget you state explicitly.", 40, vec!["The ladder speaks in percentages because", "it does not know your balances;", "converting that needs a budget you state", "explicitly."]),
        ("The ladder speaks in percentages because it does not know your balances; converting that needs a budget you state explicitly.", 74, vec!["The ladder speaks in percentages because it does not know your balances;", "converting that needs a budget you state explicitly."]),
        ("re-anchor 30-min well-known --flag a--b one-two-three-four-five-six-seven-eight-nine-ten", 7, vec!["re-", "anchor", "30-min", "well-", "known", "--flag", "a--b", "one-", "two-", "three-", "four-", "five-", "six-", "seven-", "eight-", "nine-", "ten"]),
        ("re-anchor 30-min well-known --flag a--b one-two-three-four-five-six-seven-eight-nine-ten", 10, vec!["re-anchor", "30-min", "well-known", "--flag a--", "b one-two-", "three-", "four-five-", "six-seven-", "eight-", "nine-ten"]),
        ("re-anchor 30-min well-known --flag a--b one-two-three-four-five-six-seven-eight-nine-ten", 20, vec!["re-anchor 30-min", "well-known --flag a", "--b one-two-three-", "four-five-six-seven-", "eight-nine-ten"]),
        ("re-anchor 30-min well-known --flag a--b one-two-three-four-five-six-seven-eight-nine-ten", 40, vec!["re-anchor 30-min well-known --flag a--b", "one-two-three-four-five-six-seven-eight-", "nine-ten"]),
        ("re-anchor 30-min well-known --flag a--b one-two-three-four-five-six-seven-eight-nine-ten", 74, vec!["re-anchor 30-min well-known --flag a--b one-two-three-four-five-six-seven-", "eight-nine-ten"]),
        ("supercalifragilisticexpialidocious-and-then-some words", 7, vec!["superca", "lifragi", "listice", "xpialid", "ocious-", "and-", "then-", "some", "words"]),
        ("supercalifragilisticexpialidocious-and-then-some words", 10, vec!["supercalif", "ragilistic", "expialidoc", "ious-and-", "then-some", "words"]),
        ("supercalifragilisticexpialidocious-and-then-some words", 20, vec!["supercalifragilistic", "expialidocious-and-", "then-some words"]),
        ("supercalifragilisticexpialidocious-and-then-some words", 40, vec!["supercalifragilisticexpialidocious-and-", "then-some words"]),
        ("supercalifragilisticexpialidocious-and-then-some words", 74, vec!["supercalifragilisticexpialidocious-and-then-some words"]),
        ("a  b\tc\nd   e", 7, vec!["a  b", "c d   e"]),
        ("a  b\tc\nd   e", 10, vec!["a  b    c", "d   e"]),
        ("a  b\tc\nd   e", 20, vec!["a  b    c d   e"]),
        ("a  b\tc\nd   e", 40, vec!["a  b    c d   e"]),
        ("a  b\tc\nd   e", 74, vec!["a  b    c d   e"]),
        ("x", 7, vec!["x"]),
        ("x", 10, vec!["x"]),
        ("x", 20, vec!["x"]),
        ("x", 40, vec!["x"]),
        ("x", 74, vec!["x"]),
        ("", 7, vec![]),
        ("", 10, vec![]),
        ("", 20, vec![]),
        ("", 40, vec![]),
        ("", 74, vec![]),
        ("   leading and trailing   ", 7, vec!["leading", "and tra", "iling"]),
        ("   leading and trailing   ", 10, vec!["   leading", "and", "trailing"]),
        ("   leading and trailing   ", 20, vec!["   leading and", "trailing"]),
        ("   leading and trailing   ", 40, vec!["   leading and trailing"]),
        ("   leading and trailing   ", 74, vec!["   leading and trailing"]),
        ("BTC -29% in 90 days, the alts far worse (see the e-mail).", 7, vec!["BTC", "-29% in", "90", "days,", "the", "alts", "far", "worse", "(see", "the e-", "mail)."]),
        ("BTC -29% in 90 days, the alts far worse (see the e-mail).", 10, vec!["BTC -29%", "in 90", "days, the", "alts far", "worse (see", "the", "e-mail)."]),
        ("BTC -29% in 90 days, the alts far worse (see the e-mail).", 20, vec!["BTC -29% in 90 days,", "the alts far worse", "(see the e-mail)."]),
        ("BTC -29% in 90 days, the alts far worse (see the e-mail).", 40, vec!["BTC -29% in 90 days, the alts far worse", "(see the e-mail)."]),
        ("BTC -29% in 90 days, the alts far worse (see the e-mail).", 74, vec!["BTC -29% in 90 days, the alts far worse (see the e-mail)."]),
        ("https://example.com/a/very/long/path/that/does/not/break-anywhere", 7, vec!["https:/", "/exampl", "e.com/a", "/very/l", "ong/pat", "h/that/", "does/no", "t/break", "-anywhe", "re"]),
        ("https://example.com/a/very/long/path/that/does/not/break-anywhere", 10, vec!["https://ex", "ample.com/", "a/very/lon", "g/path/tha", "t/does/not", "/break-", "anywhere"]),
        ("https://example.com/a/very/long/path/that/does/not/break-anywhere", 20, vec!["https://example.com/", "a/very/long/path/tha", "t/does/not/break-", "anywhere"]),
        ("https://example.com/a/very/long/path/that/does/not/break-anywhere", 40, vec!["https://example.com/a/very/long/path/tha", "t/does/not/break-anywhere"]),
        ("https://example.com/a/very/long/path/that/does/not/break-anywhere", 74, vec!["https://example.com/a/very/long/path/that/does/not/break-anywhere"]),
        ("café-latte naïve coöperate — dashes", 7, vec!["café-", "latte", "naïve c", "oöperat", "e —", "dashes"]),
        ("café-latte naïve coöperate — dashes", 10, vec!["café-latte", "naïve", "coöperate", "— dashes"]),
        ("café-latte naïve coöperate — dashes", 20, vec!["café-latte naïve", "coöperate — dashes"]),
        ("café-latte naïve coöperate — dashes", 40, vec!["café-latte naïve coöperate — dashes"]),
        ("café-latte naïve coöperate — dashes", 74, vec!["café-latte naïve coöperate — dashes"]),
    ];
    for (text, width, want) in cases {
        assert_eq!(textwrap::wrap(text, width), want, "{text:?} at {width}");
    }
}

#[test]
fn sums_carry_what_rounding_loses() {
    let cases: Vec<(Vec<f64>, f64)> = vec![
        (vec![0.1, 0.1, 0.1, 0.1, 0.1, 0.1, 0.1, 0.1, 0.1, 0.1], 1.0),
        (vec![1e+16, 1.0, -1e+16], 1.0),
        (vec![0.1, 0.2, 0.3], 0.6),
        (vec![1e+100, 1.0, -1e+100], 1.0),
        (vec![], 0.0),
        (vec![2.5], 2.5),
        (vec![1e+308, 1e+308], f64::INFINITY),
        (vec![3.3, -1.1, -2.2], -4.440892098500626e-16),
    ];
    for (xs, want) in cases {
        let v: Vec<Double> = xs.iter().map(|x| d(*x)).collect();
        assert_eq!(f64::from_bits(pyfmt::sum(&v).bits), want, "{xs:?}");
    }
}

#[test]
fn the_formats_the_watchers_print() {
    assert_eq!(pyfmt::comma(d(52000.5), 0), "52,000");
    assert_eq!(pyfmt::comma(d(-1234.5678), 2), "-1,234.57");
    assert_eq!(pyfmt::g6(d(0.00147)), "0.00147");
    assert_eq!(pyfmt::g6(d(1e16)), "1e+16");
    assert_eq!(pyfmt::g6(d(12.0)), "12");
    assert_eq!(pyfmt::comma_g(d(1234.5678), 6), "1,234.57");
    assert_eq!(pyfmt::signed(d(0.0), 2), "+0.00");
    assert_eq!(pyfmt::repr(d(40000.0)), "40000.0");
    assert_eq!(pyfmt::repr(d(1e-5)), "1e-05");
    assert_eq!(pyfmt::repr(d(1e16)), "1e+16");
    assert_eq!(pyfmt::repr(d(0.1)), "0.1");
    assert_eq!(pyfmt::round(d(61234.567), 2), d(61234.57));
    assert_eq!(pyfmt::floordiv(-7, 2), -4);
    assert_eq!(pyfmt::ljust("ab", 4), "ab  ");
    assert_eq!(pyfmt::rjust("ab", 4), "  ab");
}

#[test]
fn hyphens_between_letters_break_and_digits_do_not() {
    assert_eq!(
        textwrap::split(&"re-anchor 30-min".chars().collect::<Vec<_>>()),
        vec!["re-", "anchor", " ", "30-min"]
    );
    assert_eq!(textwrap::wrap("aaa bbb ccc", 7), vec!["aaa bbb", "ccc"]);
    assert!(textwrap::wrap("   ", 10).is_empty());
    assert!(textwrap::wrap("", 10).is_empty());
}
