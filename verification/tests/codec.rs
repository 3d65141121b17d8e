use std::collections::hash_map::DefaultHasher;
use std::collections::HashMap;
use std::hash::{Hash, Hasher};

use uniclass::{ParseUniclassError, Uniclass, UniclassTable};

fn hash_of(c: &Uniclass) -> u64 {
    let mut h = DefaultHasher::new();
    c.hash(&mut h);
    h.finish()
}

#[test]
fn struct_size() {
    assert_eq!(std::mem::size_of::<Uniclass>(), 8);
}

#[test]
fn decoding_uniclass() {
    let product_a: Uniclass = "Ss_25_20_15_16".parse().expect("test");
    let product_b: Uniclass = "Ss_25_20_50".parse().expect("test");
    let expected_a =
        Uniclass::new(UniclassTable::Ss, 25, Some(20), Some(15), Some(16)).expect("test");
    let expected_b = Uniclass::new(UniclassTable::Ss, 25, Some(20), Some(50), None).expect("test");
    assert_eq!(product_a, expected_a);
    assert_eq!(product_a.group(), 25);
    assert_eq!(product_a.sub_group(), Some(20));
    assert_eq!(product_a.section(), Some(15));
    assert_eq!(product_a.object(), Some(16));

    assert_eq!(product_b, expected_b);
    assert_eq!(product_b.group(), 25);
    assert_eq!(product_b.sub_group(), Some(20));
    assert_eq!(product_b.section(), Some(50));
    assert_eq!(product_b.object(), None);
}

#[test]
fn round_trip_every_depth() {
    let cases = [
        Uniclass::new(UniclassTable::Pr, 3, None, None, None).expect("in range"),
        Uniclass::new(UniclassTable::Pr, 3, Some(0), None, None).expect("in range"),
        Uniclass::new(UniclassTable::Pr, 3, Some(0), Some(127), None).expect("in range"),
        Uniclass::new(UniclassTable::Pr, 3, Some(0), Some(127), Some(99)).expect("in range"),
    ];
    for c in cases.iter() {
        let text = c.to_code_string();
        let back: Uniclass = text.parse().expect("formatted code re-parses");
        assert_eq!(back, *c);
    }
}

#[test]
fn round_trip_every_table() {
    let tables = [
        (UniclassTable::Ac, "Ac"),
        (UniclassTable::Co, "Co"),
        (UniclassTable::En, "En"),
        (UniclassTable::RK, "RK"),
        (UniclassTable::SL, "SL"),
        (UniclassTable::EF, "EF"),
        (UniclassTable::Ss, "Ss"),
        (UniclassTable::Pr, "Pr"),
        (UniclassTable::TE, "TE"),
        (UniclassTable::PM, "PM"),
        (UniclassTable::Ma, "Ma"),
        (UniclassTable::PC, "PC"),
        (UniclassTable::FI, "FI"),
        (UniclassTable::Ro, "Ro"),
        (UniclassTable::Zz, "Zz"),
    ];
    for (table, mnemonic) in tables.iter() {
        let c = Uniclass::new(*table, 45, Some(10), None, None).expect("in range");
        let text = c.to_code_string();
        assert_eq!(text, format!("{}_45_10", mnemonic));
        let back: Uniclass = text.parse().expect("formatted code re-parses");
        assert_eq!(back, c);
        assert_eq!(back.table(), *table);
    }
}

#[test]
fn canonical_round_trip() {
    let a: Uniclass = "Ss_25_20_15_16".parse().expect("test");
    assert_eq!(a.to_code_string(), "Ss_25_20_15_16");
    let b: Uniclass = "Ss_25_20_50".parse().expect("test");
    assert_eq!(b.to_code_string(), "Ss_25_20_50");
    let c: Uniclass = "Zz_0".parse().expect("test");
    assert_eq!(c.to_code_string(), "Zz_0");
}

#[test]
fn field_extraction() {
    let a: Uniclass = "Ss_25_20_15_16".parse().expect("test");
    assert_eq!(a.table(), UniclassTable::Ss);
    assert_eq!(a.group(), 25);
    assert_eq!(a.sub_group(), Some(20));
    assert_eq!(a.section(), Some(15));
    assert_eq!(a.object(), Some(16));
    let b: Uniclass = "Ss_25_20_50".parse().expect("test");
    assert_eq!(b.group(), 25);
    assert_eq!(b.sub_group(), Some(20));
    assert_eq!(b.section(), Some(50));
    assert_eq!(b.object(), None);
}

#[test]
fn boundary_values() {
    let max: Uniclass = "Ss_127".parse().expect("127 is representable");
    assert_eq!(max.group(), 127);
    assert_eq!(max.to_code_string(), "Ss_127");
    let back: Uniclass = max.to_code_string().parse().expect("test");
    assert_eq!(back, max);

    assert_eq!(
        "Ss_128".parse::<Uniclass>().unwrap_err(),
        ParseUniclassError::OutOfRange
    );
    assert_eq!(
        "Ss_1_128".parse::<Uniclass>().unwrap_err(),
        ParseUniclassError::OutOfRange
    );
    assert_eq!(
        "Ss_99999999999999999999".parse::<Uniclass>().unwrap_err(),
        ParseUniclassError::OutOfRange
    );
    assert_eq!(
        Uniclass::new(UniclassTable::Ss, 128, None, None, None).unwrap_err(),
        ParseUniclassError::OutOfRange
    );
    assert_eq!(
        Uniclass::new(UniclassTable::Ss, 1, Some(200), None, None).unwrap_err(),
        ParseUniclassError::OutOfRange
    );
    assert_eq!(
        Uniclass::new(UniclassTable::Ss, 1, Some(1), Some(1), Some(255)).unwrap_err(),
        ParseUniclassError::OutOfRange
    );
}

#[test]
fn invalid_table() {
    assert_eq!(
        "Xx_1".parse::<Uniclass>().unwrap_err(),
        ParseUniclassError::InvalidTable
    );
    // The mnemonics are case-sensitive.
    assert_eq!(
        "ss_1".parse::<Uniclass>().unwrap_err(),
        ParseUniclassError::InvalidTable
    );
    assert_eq!(
        "S_1".parse::<Uniclass>().unwrap_err(),
        ParseUniclassError::InvalidTable
    );
    assert_eq!(
        "Ss1_1".parse::<Uniclass>().unwrap_err(),
        ParseUniclassError::InvalidTable
    );
    assert_eq!(
        "".parse::<Uniclass>().unwrap_err(),
        ParseUniclassError::InvalidTable
    );
}

#[test]
fn insufficient_segments() {
    assert_eq!(
        "Ss".parse::<Uniclass>().unwrap_err(),
        ParseUniclassError::InsufficientSegments
    );
    assert_eq!(
        "Zz".parse::<Uniclass>().unwrap_err(),
        ParseUniclassError::InsufficientSegments
    );
}

#[test]
fn non_numeric_levels() {
    assert_eq!(
        "Ss_a".parse::<Uniclass>().unwrap_err(),
        ParseUniclassError::ParseIntError
    );
    assert_eq!(
        "Ss_".parse::<Uniclass>().unwrap_err(),
        ParseUniclassError::ParseIntError
    );
    assert_eq!(
        "Ss_1_x".parse::<Uniclass>().unwrap_err(),
        ParseUniclassError::ParseIntError
    );
    assert_eq!(
        "Ss_1__2".parse::<Uniclass>().unwrap_err(),
        ParseUniclassError::ParseIntError
    );
    assert_eq!(
        "Ss_-1".parse::<Uniclass>().unwrap_err(),
        ParseUniclassError::ParseIntError
    );
}

#[test]
fn extra_tokens_ignored() {
    let a: Uniclass = "Ss_1_2_3_4_5".parse().expect("test");
    let b: Uniclass = "Ss_1_2_3_4".parse().expect("test");
    assert_eq!(a, b);
}

#[test]
fn leading_zeros_accepted() {
    let a: Uniclass = "Ss_007".parse().expect("test");
    assert_eq!(a.group(), 7);
    // Formatting writes the shortest numeral, so this input was not canonical.
    assert_eq!(a.to_code_string(), "Ss_7");
}

#[test]
fn error_messages() {
    assert_eq!(ParseUniclassError::InvalidTable.message(), "InvalidTable");
    assert_eq!(
        ParseUniclassError::InsufficientSegments.message(),
        "InsufficientSegments"
    );
    assert_eq!(ParseUniclassError::ParseIntError.message(), "ParseIntError");
    assert_eq!(ParseUniclassError::OutOfRange.message(), "OutOfRange");
}

#[test]
fn sparse_code_formats_to_first_absence() {
    // A section without a sub-group can be assembled, but the text stops
    // at the first absent level, so such a code does not round-trip.
    let sparse = Uniclass::new(UniclassTable::Ss, 25, None, Some(50), None).expect("in range");
    assert_eq!(sparse.section(), Some(50));
    assert_eq!(sparse.to_code_string(), "Ss_25");
    let back: Uniclass = "Ss_25".parse().expect("test");
    assert_ne!(back, sparse);
}

#[test]
fn equality_and_hashing() {
    let a = Uniclass::new(UniclassTable::Ss, 25, Some(20), None, None).expect("test");
    let b: Uniclass = "Ss_25_20".parse().expect("test");
    assert_eq!(a, b);
    assert_eq!(hash_of(&a), hash_of(&b));

    let c = Uniclass::new(UniclassTable::Pr, 25, Some(20), None, None).expect("test");
    assert_ne!(a, c);
    let d = Uniclass::new(UniclassTable::Ss, 25, Some(21), None, None).expect("test");
    assert_ne!(a, d);
    let e = Uniclass::new(UniclassTable::Ss, 25, None, None, None).expect("test");
    assert_ne!(a, e);

    let mut m: HashMap<Uniclass, &str> = HashMap::new();
    m.insert(a, "Services systems");
    assert_eq!(m.get(&b), Some(&"Services systems"));
    assert_eq!(m.get(&c), None);
}

#[test]
fn ordering() {
    // Tables order before any level does.
    let ac: Uniclass = "Ac_99".parse().expect("test");
    let co: Uniclass = "Co_1".parse().expect("test");
    assert!(ac < co);

    // For one table, codes order by ascending packed value.
    let shallow: Uniclass = "Ss_25".parse().expect("test");
    let deep_max: Uniclass = "Ss_25_127".parse().expect("test");
    let deep_min: Uniclass = "Ss_25_0".parse().expect("test");
    assert!(deep_min < deep_max);
    // An absent level sorts after every present value at its position.
    assert!(shallow > deep_max);
    assert!(shallow > deep_min);

    let lo: Uniclass = "Ss_25_20_15_16".parse().expect("test");
    let hi: Uniclass = "Ss_25_20_15_17".parse().expect("test");
    assert!(lo < hi);
    let hi_group: Uniclass = "Ss_26".parse().expect("test");
    assert!(lo < hi_group);
    assert!(shallow < hi_group);
}
