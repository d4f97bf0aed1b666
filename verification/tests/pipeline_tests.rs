use dispo_rows::cell::Value;
use dispo_rows::dates::from_ymd_hm;
use dispo_rows::file_parsing::{create_job_rows, ColumnMapping};
use dispo_rows::job_row::{DispoMode, JobRow, TemperatureRange};
use dispo_rows::parse_error::ParseFilesError;
use dispo_rows::table::{Column, RawTable};

fn text(s: &str) -> Value {
    Value::Text(String::from(s))
}

fn col(name: &str, values: Vec<Value>) -> Column {
    Column { name: String::from(name), values }
}

/// A CL-View table whose rows carry the given job numbers, all other fields
/// fixed, for Delivery mode.
fn cl_view_table(jobs: &[&str]) -> RawTable {
    let n = jobs.len();
    let texts = |s: &str| (0..n).map(|_| text(s)).collect::<Vec<Value>>();
    RawTable {
        columns: vec![
            col("Load #", jobs.iter().map(|j| text(j)).collect()),
            col("Actual Quantity", (0..n).map(|_| Value::Int(5)).collect()),
            col("Equipment Codes", texts("EQ")),
            col("Target Delivery (Early)", texts("01/01/2024 08:00")),
            col("Target Delivery (Late)", texts("01/01/2024 09:00")),
            col("Consignee", texts("ACME-INFO")),
            col("Consignee Name", texts("Acme")),
            col("Consignee Address", texts("1 Main St")),
            col("Consignee City", texts("Springfield")),
            col("Consignee State", texts("IL")),
            col("Consignee Postal Code", texts("62704")),
            col("Consignee Country", texts("US")),
        ],
    }
}

/// A Shipper/Site table whose rows carry the given job numbers.
fn shipper_site_table(jobs: &[&str]) -> RawTable {
    let n = jobs.len();
    RawTable {
        columns: vec![
            col("Load #", jobs.iter().map(|j| text(j)).collect()),
            col(
                "Ref: House Waybill Number",
                (0..n).map(|i| text(&format!("H{}", i + 1))).collect(),
            ),
            col("Ref: Temperature Range", (0..n).map(|_| text("Ambient")).collect()),
        ],
    }
}

#[test]
fn end_to_end_single_row() {
    let cl = cl_view_table(&["J1"]);
    let ss = shipper_site_table(&["J1"]);
    let rows: Vec<JobRow> = create_job_rows(&cl, &ss, DispoMode::Delivery).unwrap();
    assert_eq!(rows.len(), 1);
    let row = &rows[0];
    assert_eq!(row.mode, DispoMode::Delivery);
    assert_eq!(row.job_number, "J1");
    assert_eq!(row.hawb_number, "H1");
    assert_eq!(row.quantities, 5);
    assert_eq!(row.temperature_ranges, vec![TemperatureRange::Ambient]);
    assert_eq!(row.address, "1 Main St");
    assert_eq!(row.postal_code, "62704");
    assert_eq!(row.city, "Springfield");
    assert_eq!(row.country, "US");
    assert_eq!(row.equipment, "EQ");
    assert_eq!(row.contact_name, "Acme");
    assert_eq!(row.early_date, from_ymd_hm(2024, 1, 1, 8, 0).unwrap());
    assert_eq!(row.late_date, from_ymd_hm(2024, 1, 1, 9, 0).unwrap());
    assert_eq!(row.calculated_date, from_ymd_hm(2024, 1, 1, 8, 30).unwrap());
    assert_eq!(row.tolerance, 30);
}

#[test]
fn joining_disjoint_job_numbers_yields_empty_result() {
    let cl = cl_view_table(&["J1", "J2"]);
    let ss = shipper_site_table(&["J3", "J4"]);
    let rows = create_job_rows(&cl, &ss, DispoMode::Delivery).unwrap();
    assert_eq!(rows.len(), 0);
}

#[test]
fn joining_fully_overlapping_unique_job_numbers_keeps_every_row() {
    let jobs = ["J1", "J2", "J3"];
    let cl = cl_view_table(&jobs);
    let ss = shipper_site_table(&["J3", "J1", "J2"]);
    let rows = create_job_rows(&cl, &ss, DispoMode::Delivery).unwrap();
    assert_eq!(rows.len(), 3);
    // Output follows the left table's order.
    assert_eq!(rows[0].job_number, "J1");
    assert_eq!(rows[1].job_number, "J2");
    assert_eq!(rows[2].job_number, "J3");
    assert_eq!(rows[0].hawb_number, "H2");
}

#[test]
fn duplicate_keys_multiply_rows() {
    let cl = cl_view_table(&["J1", "J1"]);
    let ss = shipper_site_table(&["J1", "J1"]);
    let rows = create_job_rows(&cl, &ss, DispoMode::Delivery).unwrap();
    assert_eq!(rows.len(), 4);
}

#[test]
fn missing_column_fails_the_request() {
    let mut cl = cl_view_table(&["J1"]);
    cl.columns.remove(1);
    let ss = shipper_site_table(&["J1"]);
    let e = create_job_rows(&cl, &ss, DispoMode::Delivery).unwrap_err();
    match e {
        ParseFilesError::TableError(m) => assert_eq!(m, "column not found: Actual Quantity"),
        _ => panic!("expected TableError"),
    }
}

#[test]
fn unparseable_quantity_fails_the_request() {
    let mut cl = cl_view_table(&["J1"]);
    cl.columns[1] = col("Actual Quantity", vec![Value::Bool(true)]);
    let ss = shipper_site_table(&["J1"]);
    let e = create_job_rows(&cl, &ss, DispoMode::Delivery).unwrap_err();
    assert!(matches!(e, ParseFilesError::AnyValueToNumericParse(_)));
    assert_eq!(
        e.message(),
        "AnyValueToNumericParseError: Value can not parsed to numeric: true"
    );
}

#[test]
fn unparseable_dates_degrade_to_the_epoch() {
    let mut cl = cl_view_table(&["J1"]);
    cl.columns[3] = col("Target Delivery (Early)", vec![text("whenever")]);
    cl.columns[4] = col("Target Delivery (Late)", vec![Value::Null]);
    let ss = shipper_site_table(&["J1"]);
    let rows = create_job_rows(&cl, &ss, DispoMode::Delivery).unwrap();
    assert_eq!(rows[0].early_date.secs, 0);
    assert_eq!(rows[0].late_date.secs, 0);
    assert_eq!(rows[0].calculated_date.secs, 0);
    assert_eq!(rows[0].tolerance, 0);
}

#[test]
fn pickup_mode_reads_the_shipper_family() {
    let jobs = ["J9"];
    let n = jobs.len();
    let texts = |s: &str| (0..n).map(|_| text(s)).collect::<Vec<Value>>();
    let cl = RawTable {
        columns: vec![
            col("Load #", vec![text("J9")]),
            col("Actual Quantity", vec![text("12.0")]),
            col("Equipment Codes", texts("EQ2")),
            col("Target Ship (Early)", texts("02/01/2024 10:00")),
            col("Target Ship (Late)", texts("02/01/2024 12:02")),
            col("Shipper", texts("WH-INFO")),
            col("Shipper Name", texts("Warehouse")),
            col("Shipper Address", texts("2 Dock Rd")),
            col("Shipper City", texts("Metropolis")),
            col("Shipper State", texts("NY")),
            col("Shipper Postal Code", texts("10001")),
            col("Shipper Country", texts("US")),
        ],
    };
    let ss = shipper_site_table(&jobs);
    let rows = create_job_rows(&cl, &ss, DispoMode::Pickup).unwrap();
    assert_eq!(rows.len(), 1);
    let row = &rows[0];
    assert_eq!(row.mode, DispoMode::Pickup);
    assert_eq!(row.quantities, 12);
    assert_eq!(row.contact_name, "Warehouse");
    assert_eq!(row.address, "2 Dock Rd");
    assert_eq!(row.calculated_date, from_ymd_hm(2024, 2, 1, 11, 1).unwrap());
    assert_eq!(row.tolerance, 120);
}

#[test]
fn job_row_display() {
    let cl = cl_view_table(&["J1"]);
    let ss = shipper_site_table(&["J1"]);
    let rows = create_job_rows(&cl, &ss, DispoMode::Delivery).unwrap();
    let shown = rows[0].to_display_string();
    assert_eq!(
        shown,
        "JobRow { mode: Delivery, job_number: J1, hawb_number: H1, \
         temperature_range: Ambient, quantities: 5, address: 1 Main St, \
         postal_code: 62704, city: Springfield, country: US, equipment: EQ, \
         tolerance: 30, early_date: 2024-01-01 08:00:00, \
         late_date: 2024-01-01 09:00:00, calculated_date: 2024-01-01 08:30:00, \
         contact_name: Acme }"
    );
}

#[test]
fn column_mapping_display() {
    let shown = ColumnMapping::new(DispoMode::Pickup).to_display_string();
    assert!(shown.starts_with("ColumnMapping { job_number: Load #, hawb: Ref: House Waybill Number, "));
    assert!(shown.ends_with(", country: Shipper Country }"));
    assert!(shown.contains("target_early: Target Ship (Early)"));
}
