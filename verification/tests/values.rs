use sprocket_metrics::double::{tenths_of_gib, truncate_product};
use sprocket_metrics::json::{Json, JsonNumber, JsonValue};
use sprocket_metrics::text::{
    align_left, align_right, comes_before, contains, i64_to_text, join, starts_with, suffix_from,
};
use sprocket_metrics::time::Timestamp;
use sprocket_metrics::uuid::Uuid;

/// A stream of numbers without much of a pattern.
fn scramble(state: &mut u64) -> u64 {
    *state = state.wrapping_mul(6364136223846793005).wrapping_add(1442695040888963407);
    let mixed = *state ^ (*state >> 33);
    mixed.wrapping_mul(0xff51afd7ed558ccd) ^ (mixed >> 29)
}

#[test]
fn products_truncate_as_doubles_do() {
    let mut state = 1;
    let mut factors = vec![0, 1, -1, 2, 3, 1_000, i64::MAX, i64::MIN, (1 << 53) + 1];
    for _ in 0..60 {
        let shift = scramble(&mut state) % 64;
        factors.push((scramble(&mut state) >> shift) as i64);
        factors.push(-((scramble(&mut state) >> (shift | 1)) as i64));
    }
    let mut cpus = vec![
        0.0,
        -0.0,
        0.1,
        0.5,
        1.0,
        2.0,
        1.1,
        -1.5,
        1e-300,
        1e300,
        5e-324,
        f64::MAX,
        f64::MIN_POSITIVE,
        f64::INFINITY,
        f64::NEG_INFINITY,
        f64::NAN,
        9_007_199_254_740_993.0,
    ];
    for _ in 0..400 {
        cpus.push(f64::from_bits(scramble(&mut state)));
        cpus.push((scramble(&mut state) % 100_000) as f64 / 1_000.0);
    }
    for &cpu in &cpus {
        for &factor in &factors {
            assert_eq!(
                truncate_product(cpu.to_bits(), factor),
                (cpu * factor as f64) as i64,
                "{cpu} * {factor}"
            );
        }
    }
}

#[test]
fn gib_round_as_doubles_do() {
    let mut state = 2;
    for _ in 0..20_000 {
        let shift = scramble(&mut state) % 64;
        let bytes = scramble(&mut state) >> shift;
        let expected = format!("{:.1}", bytes as f64 / (1024.0 * 1024.0 * 1024.0));
        let tenths = tenths_of_gib(bytes);
        assert_eq!(format!("{}.{}", tenths / 10, tenths % 10), expected);
    }
}

#[test]
fn times_are_subtracted_as_chrono_does() {
    let mut state = 3;
    let mut times = Vec::new();
    for secs in [
        -8_334_601_228_800i64,
        -1,
        0,
        59,
        86_399,
        86_400,
        1_483_228_799,
        8_210_266_876_799,
    ] {
        for nanos in [0u32, 1, 999_999_999, 1_000_000_000, 1_999_999_999] {
            times.push((secs, nanos));
        }
    }
    for _ in 0..100 {
        let secs = (scramble(&mut state) % 4_000_000_000) as i64 - 1_000_000_000;
        times.push((secs, (scramble(&mut state) % 2_000_000_000) as u32));
        times.push((secs - secs.rem_euclid(60) + 59, 1_500_000_000));
    }
    let mut pairs = Vec::new();
    for (secs, nanos) in times {
        let ours = Timestamp::new(secs, nanos);
        let theirs = chrono::DateTime::from_timestamp(secs, nanos);
        assert_eq!(ours.is_some(), theirs.is_some(), "{secs} {nanos}");
        if let (Some(ours), Some(theirs)) = (ours, theirs) {
            assert_eq!(ours.timestamp(), theirs.timestamp());
            assert_eq!(ours.timestamp_subsec_nanos(), theirs.timestamp_subsec_nanos());
            pairs.push((ours, theirs));
        }
    }
    assert!(Timestamp::new(8_210_266_876_800, 0).is_none());
    assert!(Timestamp::new(-8_334_601_228_801, 0).is_none());
    for (start, from) in &pairs {
        for (end, to) in &pairs {
            assert_eq!(start.millis_until(end), (*to - *from).num_milliseconds());
            assert_eq!(start.is_before(end), from < to);
            assert_eq!(start == end, from == to);
        }
    }
}

#[test]
fn the_clock_moves_on() {
    let before = chrono::Utc::now();
    let now = Timestamp::now();
    let after = chrono::Utc::now();
    let read = chrono::DateTime::from_timestamp(now.timestamp(), now.timestamp_subsec_nanos());
    assert!(before <= read.unwrap() && read.unwrap() <= after);
}

#[test]
fn identifiers_are_hyphenated() {
    assert_eq!(
        Uuid::nil().to_text(),
        "00000000-0000-0000-0000-000000000000"
    );
    let value = 0x0123_4567_89ab_cdef_0123_4567_89ab_cdef;
    assert_eq!(
        Uuid { value }.to_text(),
        "01234567-89ab-cdef-0123-456789abcdef"
    );
    assert_eq!(
        Uuid { value: u128::MAX }.to_text(),
        uuid::Uuid::max().to_string()
    );
}

fn json(text: &str, value: JsonValue) -> Json {
    Json {
        text: text.to_string(),
        value,
    }
}

fn number(n: i64) -> Json {
    json(
        &n.to_string(),
        JsonValue::Number(JsonNumber {
            integer: Some(n),
            double_bits: (n as f64).to_bits(),
            double_text: format!("{}", n as f64),
        }),
    )
}

#[test]
fn fields_are_read_by_name_and_type() {
    let value = json(
        r#"{"n":4,"t":"text","l":[null]}"#,
        JsonValue::Object(vec![
            ("n".to_string(), number(4)),
            (
                "t".to_string(),
                json("\"text\"", JsonValue::Text("text".to_string())),
            ),
            (
                "l".to_string(),
                json("[null]", JsonValue::Array(vec![json("null", JsonValue::Null)])),
            ),
        ]),
    );
    assert_eq!(value.get_integer("n"), Some(4));
    assert_eq!(value.get_number("n").unwrap().double_text, "4");
    assert_eq!(value.get("n").unwrap().text, "4");
    assert_eq!(value.get_text("t").unwrap(), "text");
    assert_eq!(value.get_list_len("l"), Some(1));
    assert_eq!(value.get_integer("t"), None);
    assert!(value.get_number("l").is_none());
    assert!(value.get_text("n").is_none());
    assert_eq!(value.get_list_len("t"), None);
    assert!(value.get("missing").is_none());
    assert!(number(1).get("n").is_none());
}

#[test]
fn texts_are_handled_as_the_standard_library_does() {
    for (a, b) in [
        ("", ""),
        ("a", ""),
        ("", "a"),
        ("abc", "abd"),
        ("abc", "ab"),
        ("é", "z"),
        ("\u{10000}", "\u{ffff}"),
    ] {
        assert_eq!(comes_before(a, b), a < b);
        assert_eq!(contains(a, b), a.contains(b));
        assert_eq!(starts_with(a, b), a.starts_with(b));
        assert_eq!(align_left(a, 5), format!("{a:<5}"));
        assert_eq!(align_right(b, 5), format!("{b:>5}"));
    }
    assert_eq!(suffix_from("añb", 1), "ñb");
    assert_eq!(
        join(&vec!["a".to_string(), "b".to_string()], ", "),
        "a, b"
    );
    for n in [0, 7, -7, 10, i64::MAX, i64::MIN] {
        assert_eq!(i64_to_text(n), n.to_string());
    }
}
