use os3000::condition::{get_scale_units, parse_unit, parse_unit_bytes, split_commas};

#[test]
fn parse_integer_values() {
    let p = parse_unit("1ms").unwrap();
    assert_eq!(p.value_centi, 100);
    assert_eq!(p.unit_mult, 1000);
    assert_eq!(p.unit_name, "ms");

    let p = parse_unit("250us").unwrap();
    assert_eq!(p.value_centi, 25000);
    assert_eq!(p.unit_mult, 1000000);
    assert_eq!(p.unit_name, "us");

    let p = parse_unit("5s").unwrap();
    assert_eq!(p.value_centi, 500);
    assert_eq!(p.unit_mult, 1);
    assert_eq!(p.unit_name, "s");

    let p = parse_unit("12uV").unwrap();
    assert_eq!(p.value_centi, 1200);
    assert_eq!(p.unit_mult, 1000000);
    assert_eq!(p.unit_name, "uV");
}

#[test]
fn parse_extreme_values() {
    // the largest integer form
    let p = parse_unit("999uV").unwrap();
    assert_eq!(p.value_centi, 99900);
    // the finest fractional form
    let p = parse_unit("0.99s").unwrap();
    assert_eq!(p.value_centi, 99);
    // a fourth digit pushes the match one position to the right
    let p = parse_unit("1000V").unwrap();
    assert_eq!(p.value_centi, 0);
    assert_eq!(p.unit_name, "V");
}

#[test]
fn parse_fractional_values() {
    let p = parse_unit("0.5V").unwrap();
    assert_eq!(p.value_centi, 50);
    assert_eq!(p.unit_mult, 1);
    assert_eq!(p.unit_name, "V");

    let p = parse_unit("0.25mV").unwrap();
    assert_eq!(p.value_centi, 25);
    assert_eq!(p.unit_mult, 1000);
    assert_eq!(p.unit_name, "mV");
}

#[test]
fn parse_prefers_m_tokens_over_bare_units() {
    // "mV" wins over "V" at the same position
    let p = parse_unit("1mV").unwrap();
    assert_eq!(p.unit_name, "mV");
    assert_eq!(p.unit_mult, 1000);
}

#[test]
fn parse_scans_for_leftmost_match() {
    // garbage before the token is skipped
    let p = parse_unit("ab1ms").unwrap();
    assert_eq!(p.value_centi, 100);
    assert_eq!(p.unit_name, "ms");

    // four digits cannot match whole; the leftmost match starts one later
    let p = parse_unit("1234ms").unwrap();
    assert_eq!(p.value_centi, 23400);
    assert_eq!(p.unit_name, "ms");
}

#[test]
fn parse_rejects_non_matching_text() {
    assert!(parse_unit("").is_err());
    assert!(parse_unit("xyz").is_err());
    assert!(parse_unit("ms").is_err());
    assert!(parse_unit("12").is_err());
    assert!(parse_unit("0.5").is_err());
    assert!(parse_unit("V5").is_err());
    assert!(parse_unit("0.mV").is_err());
}

#[test]
fn parse_bytes_matches_str_form() {
    let p = parse_unit_bytes(&b"20mV".to_vec()).unwrap();
    assert_eq!(p.value_centi, 2000);
    assert_eq!(p.unit_mult, 1000);
    assert_eq!(p.unit_name, "mV");
}

#[test]
fn split_keeps_empty_fields() {
    let fields = split_commas(&b"a,b,,c,".to_vec());
    let fields: Vec<&[u8]> = fields.iter().map(|f| f.as_slice()).collect();
    assert_eq!(fields, vec![&b"a"[..], &b"b"[..], &b""[..], &b"c"[..], &b""[..]]);
    let fields = split_commas(&b"".to_vec());
    assert_eq!(fields.len(), 1);
    assert_eq!(fields[0], b"");
}

#[test]
fn scale_units_decoded() {
    // scenario: field 3 carries the time scale, field 7 the voltage scale
    let cond = String::from(",,,1ms,,,,5mV,,,,,");
    let (time_unit, voltage_unit) = get_scale_units(&cond).unwrap();
    assert_eq!(time_unit.value_centi, 100);
    assert_eq!(time_unit.unit_mult, 1000);
    assert_eq!(time_unit.unit_name, "ms");
    assert_eq!(voltage_unit.value_centi, 500);
    assert_eq!(voltage_unit.unit_mult, 1000);
    assert_eq!(voltage_unit.unit_name, "mV");
}

#[test]
fn scale_units_need_twelve_fields() {
    assert!(get_scale_units(&String::from("a,b,c")).is_err());
    assert!(get_scale_units(&String::from("")).is_err());
    // eleven fields are one short
    assert!(get_scale_units(&String::from(",,,1ms,,,,5mV,,,")).is_err());
}

#[test]
fn scale_units_need_valid_tokens() {
    // field 3 does not match the grammar
    assert!(get_scale_units(&String::from(",,,xx,,,,5mV,,,,,")).is_err());
    // field 7 does not match the grammar
    assert!(get_scale_units(&String::from(",,,1ms,,,,xx,,,,,")).is_err());
}
