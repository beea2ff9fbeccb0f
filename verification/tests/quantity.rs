use shipcat::error::Error;
use shipcat::quantity::{parse_cpu, parse_memory, Quantity};

/// The numerator of a quantity, in decimal, and its places.
fn parts(q: &Quantity) -> (String, u128) {
    let mut s: String = q.digits.iter().rev().map(|d| (b'0' + d) as char).collect();
    s = s.trim_start_matches('0').to_string();
    if s.is_empty() {
        s.push('0');
    }
    (s, q.places)
}

fn value(q: &Quantity) -> f64 {
    let (n, places) = parts(q);
    n.parse::<f64>().unwrap() / 10f64.powi(places as i32)
}

#[test]
fn memory_binary_megabytes() {
    let q = parse_memory("512Mi").unwrap();
    assert_eq!(parts(&q), ((512u64 * 1024 * 1024).to_string(), 0));
    assert_eq!(value(&q), 512.0 * 1024.0 * 1024.0);
}

#[test]
fn memory_binary_gigabyte() {
    let q = parse_memory("1Gi").unwrap();
    assert_eq!(parts(&q), ("1073741824".to_string(), 0));
    assert_eq!(value(&q), 1024.0 * 1024.0 * 1024.0);
}

#[test]
fn memory_other_units() {
    assert_eq!(parts(&parse_memory("3Ki").unwrap()), ("3072".to_string(), 0));
    assert_eq!(parts(&parse_memory("3k").unwrap()), ("3000".to_string(), 0));
    assert_eq!(parts(&parse_memory("3M").unwrap()), ("3000000".to_string(), 0));
    assert_eq!(parts(&parse_memory("3G").unwrap()), ("3000000000".to_string(), 0));
    assert_eq!(parts(&parse_memory("42").unwrap()), ("42".to_string(), 0));
    assert_eq!(parts(&parse_memory("0").unwrap()), ("0".to_string(), 0));
    assert_eq!(parts(&parse_memory("007").unwrap()), ("7".to_string(), 0));
}

#[test]
fn memory_fraction() {
    let q = parse_memory("1.5Gi").unwrap();
    assert_eq!(parts(&q), ("16106127360".to_string(), 1));
    assert_eq!(value(&q), 1610612736.0);
    assert_eq!(parts(&parse_memory(".5k").unwrap()), ("5000".to_string(), 1));
    assert_eq!(parts(&parse_memory("5.").unwrap()), ("5".to_string(), 0));
}

#[test]
fn cpu_millicores() {
    let q = parse_cpu("200m").unwrap();
    assert_eq!(parts(&q), ("200".to_string(), 3));
    assert_eq!(value(&q), 0.2);
}

#[test]
fn cpu_whole_cores() {
    let q = parse_cpu("2").unwrap();
    assert_eq!(parts(&q), ("2".to_string(), 0));
    assert_eq!(value(&q), 2.0);
}

#[test]
fn cpu_thousands_and_fractions() {
    assert_eq!(parts(&parse_cpu("2k").unwrap()), ("2000".to_string(), 0));
    assert_eq!(parts(&parse_cpu("0.5").unwrap()), ("5".to_string(), 1));
    assert_eq!(parts(&parse_cpu("1.5m").unwrap()), ("15".to_string(), 4));
    assert_eq!(value(&parse_cpu("1.5m").unwrap()), 0.0015);
}

#[test]
fn unknown_unit_is_reported() {
    match parse_memory("512Xi") {
        Err(Error::UnknownUnit(u)) => assert_eq!(u, "Xi"),
        other => panic!("{:?}", other),
    }
    match parse_cpu("2Mi") {
        Err(Error::UnknownUnit(u)) => assert_eq!(u, "Mi"),
        other => panic!("{:?}", other),
    }
    match parse_cpu("2 m") {
        Err(Error::UnknownUnit(u)) => assert_eq!(u, " m"),
        other => panic!("{:?}", other),
    }
    assert!(matches!(parse_memory("1m"), Err(Error::UnknownUnit(_))));
    assert!(matches!(parse_memory("1Kii"), Err(Error::UnknownUnit(_))));
    assert!(matches!(parse_memory("1K"), Err(Error::UnknownUnit(_))));
    assert!(matches!(parse_cpu("1e3"), Err(Error::UnknownUnit(_))));
}

#[test]
fn invalid_number_is_reported() {
    assert!(matches!(parse_memory(""), Err(Error::InvalidNumber)));
    assert!(matches!(parse_memory("Mi"), Err(Error::InvalidNumber)));
    assert!(matches!(parse_memory("."), Err(Error::InvalidNumber)));
    assert!(matches!(parse_memory("1.2.3"), Err(Error::InvalidNumber)));
    assert!(matches!(parse_cpu("m"), Err(Error::InvalidNumber)));
    assert!(matches!(parse_cpu("-1"), Err(Error::InvalidNumber)));
    // The number is read before the unit.
    assert!(matches!(parse_cpu("1.2.3Xi"), Err(Error::InvalidNumber)));
}

#[test]
fn quantities_of_any_length_are_exact() {
    let tiny = parse_cpu("0.00000000000000000000000000000000000000000001m").unwrap();
    assert_eq!(parts(&tiny), ("1".to_string(), 47));
    let huge = parse_memory("340282366920938463463374607431768211456Gi").unwrap();
    assert_eq!(
        parts(&huge),
        ("365375409332725729550921208179070754913983135744".to_string(), 0)
    );
    assert!(huge.exceeds(&tiny));
    assert!(!tiny.exceeds(&huge));
}

#[test]
fn quantities_compare_by_value() {
    let q = |s: &str| parse_cpu(s).unwrap();
    assert!(q("0.3").exceeds(&q("200m")));
    assert!(!q("200m").exceeds(&q("0.3")));
    assert!(!q("0.2").exceeds(&q("200m")));
    assert!(!q("200m").exceeds(&q("0.2")));
    assert!(!q("1.0").exceeds(&q("1")));
    assert!(!q("1").exceeds(&q("001.000")));
    assert!(q("0.10000000000000000000000001").exceeds(&q("0.1")));
    assert!(q("10").exceeds(&q("9.99999")));
    assert!(q("2k").exceeds(&q("1999")));
    assert!(!q("0").exceeds(&q("0.0")));
    assert!(q("1m").exceeds(&q("0")));
    let ten = Quantity::from_whole(10);
    assert_eq!(parts(&ten), ("10".to_string(), 0));
    assert!(!q("10").exceeds(&ten));
    assert!(q("10.001").exceeds(&ten));
    assert!(q("10001m").exceeds(&ten));
    assert!(!q("10000m").exceeds(&ten));
    assert_eq!(parts(&Quantity::from_whole(0)), ("0".to_string(), 0));
    assert_eq!(
        parts(&Quantity::from_whole(u128::MAX)),
        (u128::MAX.to_string(), 0)
    );
}
