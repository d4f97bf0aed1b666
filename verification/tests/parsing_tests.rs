use dispo_rows::cell::{RawCell, Value};
use dispo_rows::file_parsing::{
    cell_to_value, decode_text, get_header_names, parse_sheet, require_single_sheet,
    ColumnMapping,
};
use dispo_rows::job_row::{
    any_value_to_naive_date_time, any_value_to_numeric, extract_temperature_ranges,
    numeric_text_to_i32, AnyValueToNaiveDateTimeParseError, AnyValueToNumericParseError,
    DispoMode, TemperatureRange,
};
use dispo_rows::parse_error::ParseFilesError;
use dispo_rows::text::{i64_to_string, str_eq, trim_str, u64_to_string};

#[test]
fn column_mapping_delivery_selects_consignee_family() {
    let m = ColumnMapping::new(DispoMode::Delivery);
    assert_eq!(m.job_number, "Load #");
    assert_eq!(m.hawb, "Ref: House Waybill Number");
    assert_eq!(m.quantity, "Actual Quantity");
    assert_eq!(m.equipment_codes, "Equipment Codes");
    assert_eq!(m.temperature_range, "Ref: Temperature Range");
    assert_eq!(m.target_early, "Target Delivery (Early)");
    assert_eq!(m.target_late, "Target Delivery (Late)");
    assert_eq!(m.info, "Consignee");
    assert_eq!(m.name, "Consignee Name");
    assert_eq!(m.address, "Consignee Address");
    assert_eq!(m.city, "Consignee City");
    assert_eq!(m.state, "Consignee State");
    assert_eq!(m.postal_code, "Consignee Postal Code");
    assert_eq!(m.country, "Consignee Country");
}

#[test]
fn column_mapping_pickup_selects_shipper_family() {
    let m = ColumnMapping::new(DispoMode::Pickup);
    assert_eq!(m.target_early, "Target Ship (Early)");
    assert_eq!(m.target_late, "Target Ship (Late)");
    assert_eq!(m.info, "Shipper");
    assert_eq!(m.name, "Shipper Name");
    assert_eq!(m.address, "Shipper Address");
    assert_eq!(m.city, "Shipper City");
    assert_eq!(m.state, "Shipper State");
    assert_eq!(m.postal_code, "Shipper Postal Code");
    assert_eq!(m.country, "Shipper Country");
    // The mode-invariant columns stay put.
    assert_eq!(m.job_number, "Load #");
    assert_eq!(m.hawb, "Ref: House Waybill Number");
    let fields = [
        m.job_number, m.hawb, m.quantity, m.equipment_codes, m.temperature_range,
        m.target_early, m.target_late, m.info, m.name, m.address, m.city, m.state,
        m.postal_code, m.country,
    ];
    for f in fields {
        assert!(!f.is_empty());
    }
}

#[test]
fn dispo_mode_parses_exactly_two_strings() {
    assert_eq!(DispoMode::from_str("Delivery").unwrap(), DispoMode::Delivery);
    assert_eq!(DispoMode::from_str("Pickup").unwrap(), DispoMode::Pickup);
    let e = DispoMode::from_str("delivery").unwrap_err();
    assert_eq!(e.0, "delivery");
    assert_eq!(
        e.message(),
        "Error parsing 'delivery' to a DispoMode. Expected 'Delivery' or 'Pickup'"
    );
}

#[test]
fn decode_text_drops_null_code_units() {
    assert_eq!(decode_text("abc"), "abc");
    assert_eq!(decode_text("a\u{0}b\u{0}c"), "abc");
    assert_eq!(decode_text(""), "");
    // A Latin-1 character survives through its low byte.
    assert_eq!(decode_text("caf\u{e9}"), "caf\u{e9}");
    // A character beyond the 16-bit range contributes the low bytes of its
    // two code units.
    assert_eq!(decode_text("\u{1F600}"), "=\u{0}");
}

#[test]
fn temperature_extraction_scenarios() {
    assert_eq!(
        extract_temperature_ranges("Refrigerated +2C to +8C"),
        vec![TemperatureRange::Refrigerated]
    );
    assert_eq!(extract_temperature_ranges(""), vec![TemperatureRange::Ambient]);
    assert_eq!(extract_temperature_ranges("bogus"), vec![TemperatureRange::Invalid]);
    assert_eq!(
        extract_temperature_ranges("Ambient,Frozen -25C to -15C"),
        vec![TemperatureRange::Ambient, TemperatureRange::Frozen]
    );
    // Segments are trimmed before the case-exact match.
    assert_eq!(
        extract_temperature_ranges("  Ambient ,  Cryogenics -190C to -150C"),
        vec![TemperatureRange::Ambient, TemperatureRange::DryShipper]
    );
}

#[test]
fn temperature_from_str_table() {
    assert_eq!(
        TemperatureRange::from_str("Frozen Dry Ice -80C to -20C").unwrap(),
        TemperatureRange::DryIce
    );
    assert_eq!(
        TemperatureRange::from_str("Deep Frozen Dry Ice -70C [+/-10C]").unwrap(),
        TemperatureRange::DryIce
    );
    assert_eq!(
        TemperatureRange::from_str("Frozen -50C  [+/-10C]").unwrap(),
        TemperatureRange::NonSOP
    );
    assert_eq!(
        TemperatureRange::from_str("Controlled Ambient +15C to +25C").unwrap(),
        TemperatureRange::ControlledAmbient
    );
    let e = TemperatureRange::from_str("ambient").unwrap_err();
    assert_eq!(e.0, "ambient");
    assert_eq!(
        e.message(),
        "String can not be parsed to TemperatureRange: ambient"
    );
}

#[test]
fn integer_extraction_of_text_and_bool() {
    assert_eq!(any_value_to_numeric(&Value::Text(String::from("12.0"))).unwrap(), 12);
    let e = any_value_to_numeric(&Value::Bool(true)).unwrap_err();
    match e {
        AnyValueToNumericParseError::InvalidType(m) => assert_eq!(m, "true"),
        _ => panic!("expected InvalidType"),
    }
}

#[test]
fn numeric_coercion_shapes() {
    assert_eq!(numeric_text_to_i32("5"), Some(5));
    assert_eq!(numeric_text_to_i32("+5"), Some(5));
    assert_eq!(numeric_text_to_i32("-3.7"), Some(-3));
    assert_eq!(numeric_text_to_i32(".5"), Some(0));
    assert_eq!(numeric_text_to_i32("5."), Some(5));
    assert_eq!(numeric_text_to_i32("99999999999"), Some(i32::MAX));
    assert_eq!(numeric_text_to_i32("-99999999999"), Some(i32::MIN));
    assert_eq!(numeric_text_to_i32(""), None);
    assert_eq!(numeric_text_to_i32("."), None);
    assert_eq!(numeric_text_to_i32("12a"), None);
    assert_eq!(numeric_text_to_i32(" 5"), None);
    assert_eq!(any_value_to_numeric(&Value::Int(7)).unwrap(), 7);
    assert_eq!(any_value_to_numeric(&Value::Int(10_000_000_000)).unwrap(), i32::MAX);
    assert_eq!(any_value_to_numeric(&Value::Number(String::from("5"))).unwrap(), 5);
    match any_value_to_numeric(&Value::Null).unwrap_err() {
        AnyValueToNumericParseError::InvalidType(m) => assert_eq!(m, "null"),
        _ => panic!("expected InvalidType"),
    }
    match any_value_to_numeric(&Value::Text(String::from("abc"))).unwrap_err() {
        AnyValueToNumericParseError::StringParseError(m) => assert_eq!(m, "abc"),
        _ => panic!("expected StringParseError"),
    }
}

#[test]
fn date_coercion_accepts_only_template_text() {
    let ok = any_value_to_naive_date_time(&Value::Text(String::from("01/01/2024 08:00")));
    assert_eq!(ok.unwrap().secs, 1704096000);
    match any_value_to_naive_date_time(&Value::Text(String::from("soon"))).unwrap_err() {
        AnyValueToNaiveDateTimeParseError::ParseError(m) => assert_eq!(m, "soon"),
        _ => panic!("expected ParseError"),
    }
    match any_value_to_naive_date_time(&Value::Int(5)).unwrap_err() {
        AnyValueToNaiveDateTimeParseError::InvalidType(m) => assert_eq!(m, "5"),
        _ => panic!("expected InvalidType"),
    }
}

#[test]
fn cell_conversion() {
    match cell_to_value(&RawCell::Text(String::from("a\u{0}b"))) {
        Value::Text(s) => assert_eq!(s, "ab"),
        _ => panic!("expected text"),
    }
    match cell_to_value(&RawCell::Number(String::from("3.5"))) {
        Value::Number(s) => assert_eq!(s, "3.5"),
        _ => panic!("expected number"),
    }
    assert!(matches!(cell_to_value(&RawCell::Error), Value::Null));
    assert!(matches!(cell_to_value(&RawCell::Empty), Value::Null));
    assert!(matches!(cell_to_value(&RawCell::Int(7)), Value::Int(7)));
    assert!(matches!(cell_to_value(&RawCell::Bool(true)), Value::Bool(true)));
}

#[test]
fn sheet_with_zero_rows_fails_with_no_headers() {
    let grid: Vec<Vec<RawCell>> = vec![];
    assert!(matches!(get_header_names(&grid), Err(ParseFilesError::NoHeadersFound)));
    let e = parse_sheet(&grid).unwrap_err();
    assert!(matches!(e, ParseFilesError::NoHeadersFound));
    assert_eq!(e.message(), "NoHeadersFound");
}

#[test]
fn workbook_with_two_sheets_fails_with_invalid_sheet_count() {
    assert!(require_single_sheet(1).is_ok());
    let e = require_single_sheet(2).unwrap_err();
    match &e {
        ParseFilesError::InvalidSheetCount((expected, actual)) => {
            assert_eq!(*expected, 1);
            assert_eq!(*actual, 2);
        },
        _ => panic!("expected InvalidSheetCount"),
    }
    assert_eq!(e.message(), "Expected 1 sheets, found 2");
    assert!(require_single_sheet(0).is_err());
}

#[test]
fn sheet_builder_pads_short_rows() {
    let grid = vec![
        vec![
            RawCell::Text(String::from("A")),
            RawCell::Text(String::from("B")),
        ],
        vec![RawCell::Int(1)],
    ];
    let t = parse_sheet(&grid).unwrap();
    assert_eq!(t.columns.len(), 2);
    assert_eq!(t.columns[0].name, "A");
    assert_eq!(t.columns[1].name, "B");
    assert!(matches!(t.columns[0].values[0], Value::Int(1)));
    assert!(matches!(t.columns[1].values[0], Value::Null));
}

#[test]
fn sheet_builder_rejects_duplicate_headers() {
    let grid = vec![vec![
        RawCell::Text(String::from("A")),
        RawCell::Text(String::from("A")),
    ]];
    assert!(matches!(parse_sheet(&grid), Err(ParseFilesError::TableError(_))));
}

#[test]
fn header_names_are_decoded_and_stringified() {
    let grid = vec![vec![
        RawCell::Text(String::from("Lo\u{0}ad #")),
        RawCell::Int(42),
        RawCell::Bool(false),
    ]];
    let names = get_header_names(&grid).unwrap();
    assert_eq!(names, vec!["Load #", "42", "false"]);
}

#[test]
fn text_helpers() {
    assert!(str_eq("abc", "abc"));
    assert!(!str_eq("abc", "abd"));
    assert!(!str_eq("abc", "ab"));
    assert_eq!(trim_str("  a b\t"), "a b");
    assert_eq!(trim_str("   "), "");
    assert_eq!(trim_str(""), "");
    assert_eq!(u64_to_string(0), "0");
    assert_eq!(u64_to_string(90210), "90210");
    assert_eq!(i64_to_string(-123), "-123");
    assert_eq!(i64_to_string(i64::MIN), "-9223372036854775808");
    assert_eq!(i64_to_string(i64::MAX), "9223372036854775807");
}

#[test]
fn display_names() {
    assert_eq!(DispoMode::Delivery.to_display_string(), "Delivery");
    assert_eq!(DispoMode::Pickup.to_display_string(), "Pickup");
    assert_eq!(TemperatureRange::DryIce.to_display_string(), "Dry Ice");
    assert_eq!(TemperatureRange::DryShipper.to_display_string(), "Dry Shipper");
    assert_eq!(TemperatureRange::NonSOP.to_display_string(), "Non SOP");
    assert_eq!(TemperatureRange::ControlledAmbient.to_display_string(), "Controlled Ambient");
    assert_eq!(TemperatureRange::Invalid.to_display_string(), "Invalid");
}

#[test]
fn error_messages() {
    let e = ParseFilesError::TableError(String::from("column not found: X"));
    assert_eq!(e.message(), "TableError: column not found: X");
    let e = ParseFilesError::MismatchedRowCount((3, 4));
    assert_eq!(e.message(), "Mismatched row count. Found 3 and 4");
    let inner = DispoMode::from_str("x").unwrap_err();
    let e = ParseFilesError::StringToDispoMode(inner);
    assert_eq!(
        e.message(),
        "StringToDispoModeError: Error parsing 'x' to a DispoMode. Expected 'Delivery' or 'Pickup'"
    );
    let inner = TemperatureRange::from_str("y").unwrap_err();
    let e = ParseFilesError::StringToTemperatureRange(inner);
    assert_eq!(
        e.message(),
        "StringToTemperatureRangeError: String can not be parsed to TemperatureRange: y"
    );
}
