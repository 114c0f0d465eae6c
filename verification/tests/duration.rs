use aquerty_stop::duration::{
    format_duration_label, parse_duration, parse_duration_checked, parse_normalized_duration,
    DurationError,
};

#[test]
fn bare_number_counts_minutes() {
    assert_eq!(parse_duration("30"), Ok(1800));
    assert_eq!(parse_duration(" 90 "), Ok(5400));
    assert_eq!(parse_duration("1 5"), Ok(900));
}

#[test]
fn units_are_read() {
    assert_eq!(parse_duration("30m"), Ok(1800));
    assert_eq!(parse_duration("1h20m"), Ok(4800));
    assert_eq!(parse_duration("2h30m15s"), Ok(9015));
    assert_eq!(parse_duration("90s"), Ok(90));
    assert_eq!(parse_duration("1H 5M"), Ok(3900));
    assert_eq!(parse_duration("2h15s"), Ok(7215));
}

#[test]
fn errors_carry_their_messages() {
    assert_eq!(parse_duration("   "), Err("Temps vide.".to_string()));
    assert_eq!(parse_duration("0"), Err("Le temps doit être supérieur à 0.".to_string()));
    assert_eq!(parse_duration("0h0m"), Err("Le temps doit être supérieur à 0.".to_string()));
    assert_eq!(
        parse_duration("abc"),
        Err("Format invalide. Exemples : 30m, 1h20m, 2h30m15s".to_string())
    );
    assert_eq!(
        parse_duration("5x"),
        Err("Format invalide. Exemples : 30m, 1h20m, 2h30m15s".to_string())
    );
    assert_eq!(
        parse_duration("5"),
        Ok(300)
    );
    assert_eq!(parse_duration("1hm"), Err("Format invalide.".to_string()));
    assert_eq!(parse_duration("1h2x3m"), Err("Format invalide.".to_string()));
    assert_eq!(
        parse_duration("99999999999999999999"),
        Err("Nombre invalide".to_string())
    );
    assert_eq!(
        parse_duration("99999999999999999999h"),
        Err("Heures invalides".to_string())
    );
    assert_eq!(
        parse_duration("1h99999999999999999999m"),
        Err("Minutes invalides".to_string())
    );
    assert_eq!(
        parse_duration("99999999999999999999s"),
        Err("Secondes invalides".to_string())
    );
}

#[test]
fn checked_parse_gives_the_variant() {
    assert_eq!(parse_duration_checked(""), Err(DurationError::Empty));
    assert_eq!(parse_duration_checked("m"), Err(DurationError::InvalidFormat));
    assert_eq!(parse_duration_checked("1m2h"), Err(DurationError::MalformedUnit));
    assert_eq!(parse_normalized_duration("45m"), Ok(2700));
}

#[test]
fn huge_values_saturate() {
    assert_eq!(parse_duration("18446744073709551615"), Ok(u64::MAX));
    assert_eq!(parse_duration("5124095576030432h"), Ok(u64::MAX));
    assert_eq!(parse_duration("18446744073709551615s"), Ok(u64::MAX));
}

#[test]
fn labels_are_short() {
    assert_eq!(format_duration_label(0), "0s");
    assert_eq!(format_duration_label(45), "45s");
    assert_eq!(format_duration_label(60), "1m");
    assert_eq!(format_duration_label(3605), "1h5s");
    assert_eq!(format_duration_label(4800), "1h20m");
    assert_eq!(format_duration_label(9015), "2h30m15s");
}

#[test]
fn labels_parse_back() {
    for s in [1u64, 59, 60, 61, 3599, 3600, 3661, 86_399, 1_000_000, u64::MAX] {
        assert_eq!(parse_duration(&format_duration_label(s)), Ok(s));
    }
}
