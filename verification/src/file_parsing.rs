//! Turning decoded worksheets into tables: the mode-dependent column-name
//! configuration, the null-stripping text decode, the cell conversion, and
//! the sheet-to-table builder.

use vstd::prelude::*;
use vstd::string::{StrSliceExecFns, StringExecFns};

use crate::cell::{string_of_value, RawCell, Value, ValueV};
use crate::dates::{midpoint_secs, tolerance_secs, DateTime};
use crate::job_row::{
    from_table_cols_ok, i32_col_ok, spec_date_of_value, spec_i32_of_value, spec_job_row_at,
    spec_temps_of_value, DispoMode, JobRow, JobRowV,
};
use crate::parse_error::ParseFilesError;
use crate::table::{
    col_index_from, col_values, has_col, join_pairs, lemma_col_lookup, lemma_no_col,
    right_out_index, table_height, Column, ColumnV, RawTable,
};
use crate::text::{int_str, push_char, str_eq};

verus! {

// ---------------------------------------------------------------------------
// The fixed table of physical column names, as the extracts export them.
// ---------------------------------------------------------------------------
pub open spec fn cm_job_number() -> Seq<char> {
    "Load #"@
}

pub open spec fn cm_hawb() -> Seq<char> {
    "Ref: House Waybill Number"@
}

pub open spec fn cm_quantity() -> Seq<char> {
    "Actual Quantity"@
}

pub open spec fn cm_equipment_codes() -> Seq<char> {
    "Equipment Codes"@
}

pub open spec fn cm_temperature_range() -> Seq<char> {
    "Ref: Temperature Range"@
}

pub open spec fn cm_target_early(mode: DispoMode) -> Seq<char> {
    if mode == DispoMode::Delivery {
        "Target Delivery (Early)"@
    } else {
        "Target Ship (Early)"@
    }
}

pub open spec fn cm_target_late(mode: DispoMode) -> Seq<char> {
    if mode == DispoMode::Delivery {
        "Target Delivery (Late)"@
    } else {
        "Target Ship (Late)"@
    }
}

pub open spec fn cm_info(mode: DispoMode) -> Seq<char> {
    if mode == DispoMode::Delivery {
        "Consignee"@
    } else {
        "Shipper"@
    }
}

pub open spec fn cm_name(mode: DispoMode) -> Seq<char> {
    if mode == DispoMode::Delivery {
        "Consignee Name"@
    } else {
        "Shipper Name"@
    }
}

pub open spec fn cm_address(mode: DispoMode) -> Seq<char> {
    if mode == DispoMode::Delivery {
        "Consignee Address"@
    } else {
        "Shipper Address"@
    }
}

pub open spec fn cm_city(mode: DispoMode) -> Seq<char> {
    if mode == DispoMode::Delivery {
        "Consignee City"@
    } else {
        "Shipper City"@
    }
}

pub open spec fn cm_state(mode: DispoMode) -> Seq<char> {
    if mode == DispoMode::Delivery {
        "Consignee State"@
    } else {
        "Shipper State"@
    }
}

pub open spec fn cm_postal_code(mode: DispoMode) -> Seq<char> {
    if mode == DispoMode::Delivery {
        "Consignee Postal Code"@
    } else {
        "Shipper Postal Code"@
    }
}

pub open spec fn cm_country(mode: DispoMode) -> Seq<char> {
    if mode == DispoMode::Delivery {
        "Consignee Country"@
    } else {
        "Shipper Country"@
    }
}

/// The mode-dependent binding of every logical field to its physical column
/// name. The job number, HAWB, quantity, equipment and temperature columns
/// are mode-invariant; the address/contact family and the target-date pair
/// switch between the Consignee and the Shipper side.
#[derive(Debug, Clone, Copy, PartialEq, Eq)]
pub struct ColumnMapping {
    pub job_number: &'static str,
    pub hawb: &'static str,
    pub quantity: &'static str,
    pub equipment_codes: &'static str,
    pub temperature_range: &'static str,
    pub target_early: &'static str,
    pub target_late: &'static str,
    pub info: &'static str,
    pub name: &'static str,
    pub address: &'static str,
    pub city: &'static str,
    pub state: &'static str,
    pub postal_code: &'static str,
    pub country: &'static str,
}

/// The 14 bindings a mapping built for `mode` carries.
pub open spec fn column_mapping_matches(mode: DispoMode, m: ColumnMapping) -> bool {
    &&& m.job_number@ == cm_job_number()
    &&& m.hawb@ == cm_hawb()
    &&& m.quantity@ == cm_quantity()
    &&& m.equipment_codes@ == cm_equipment_codes()
    &&& m.temperature_range@ == cm_temperature_range()
    &&& m.target_early@ == cm_target_early(mode)
    &&& m.target_late@ == cm_target_late(mode)
    &&& m.info@ == cm_info(mode)
    &&& m.name@ == cm_name(mode)
    &&& m.address@ == cm_address(mode)
    &&& m.city@ == cm_city(mode)
    &&& m.state@ == cm_state(mode)
    &&& m.postal_code@ == cm_postal_code(mode)
    &&& m.country@ == cm_country(mode)
}

impl ColumnMapping {
    /// Create a new ColumnMapping based on the mode; total, with no error
    /// path.
    pub fn new(mode: DispoMode) -> (r: Self)
        ensures
            column_mapping_matches(mode, r),
    {
        ColumnMapping {
            job_number: "Load #",
            hawb: "Ref: House Waybill Number",
            quantity: "Actual Quantity",
            equipment_codes: "Equipment Codes",
            temperature_range: "Ref: Temperature Range",
            target_early: match mode {
                DispoMode::Delivery => "Target Delivery (Early)",
                DispoMode::Pickup => "Target Ship (Early)",
            },
            target_late: match mode {
                DispoMode::Delivery => "Target Delivery (Late)",
                DispoMode::Pickup => "Target Ship (Late)",
            },
            info: match mode {
                DispoMode::Delivery => "Consignee",
                DispoMode::Pickup => "Shipper",
            },
            name: match mode {
                DispoMode::Delivery => "Consignee Name",
                DispoMode::Pickup => "Shipper Name",
            },
            address: match mode {
                DispoMode::Delivery => "Consignee Address",
                DispoMode::Pickup => "Shipper Address",
            },
            city: match mode {
                DispoMode::Delivery => "Consignee City",
                DispoMode::Pickup => "Shipper City",
            },
            state: match mode {
                DispoMode::Delivery => "Consignee State",
                DispoMode::Pickup => "Shipper State",
            },
            postal_code: match mode {
                DispoMode::Delivery => "Consignee Postal Code",
                DispoMode::Pickup => "Shipper Postal Code",
            },
            country: match mode {
                DispoMode::Delivery => "Consignee Country",
                DispoMode::Pickup => "Shipper Country",
            },
        }
    }
}

impl ColumnMapping {
    /// A one-line description of the mapping, field by field.
    pub fn to_display_string(&self) -> (r: String)
        ensures
            r@ == "ColumnMapping { job_number: "@ + self.job_number@ + ", hawb: "@ + self.hawb@
                + ", quantity: "@ + self.quantity@ + ", equipment_codes: "@
                + self.equipment_codes@ + ", temperature_range: "@ + self.temperature_range@
                + ", target_early: "@ + self.target_early@ + ", target_late: "@
                + self.target_late@ + ", info: "@ + self.info@ + ", name: "@ + self.name@
                + ", address: "@ + self.address@ + ", city: "@ + self.city@ + ", state: "@
                + self.state@ + ", postal_code: "@ + self.postal_code@ + ", country: "@
                + self.country@ + " }"@,
    {
        let mut r = String::from_str("ColumnMapping { job_number: ");
        r.append(self.job_number);
        r.append(", hawb: ");
        r.append(self.hawb);
        r.append(", quantity: ");
        r.append(self.quantity);
        r.append(", equipment_codes: ");
        r.append(self.equipment_codes);
        r.append(", temperature_range: ");
        r.append(self.temperature_range);
        r.append(", target_early: ");
        r.append(self.target_early);
        r.append(", target_late: ");
        r.append(self.target_late);
        r.append(", info: ");
        r.append(self.info);
        r.append(", name: ");
        r.append(self.name);
        r.append(", address: ");
        r.append(self.address);
        r.append(", city: ");
        r.append(self.city);
        r.append(", state: ");
        r.append(self.state);
        r.append(", postal_code: ");
        r.append(self.postal_code);
        r.append(", country: ");
        r.append(self.country);
        r.append(" }");
        r
    }
}

/// For either mode the mapping is total and all 14 of its column names are
/// non-empty; which strings they are — the Consignee family and Target
/// Delivery dates for Delivery, the Shipper family and Target Ship dates for
/// Pickup — is fixed by `column_mapping_matches`.
pub proof fn lemma_column_mapping_nonempty(mode: DispoMode, m: ColumnMapping)
    requires
        column_mapping_matches(mode, m),
    ensures
        m.job_number@.len() > 0,
        m.hawb@.len() > 0,
        m.quantity@.len() > 0,
        m.equipment_codes@.len() > 0,
        m.temperature_range@.len() > 0,
        m.target_early@.len() > 0,
        m.target_late@.len() > 0,
        m.info@.len() > 0,
        m.name@.len() > 0,
        m.address@.len() > 0,
        m.city@.len() > 0,
        m.state@.len() > 0,
        m.postal_code@.len() > 0,
        m.country@.len() > 0,
{
    reveal_strlit("Load #");
    reveal_strlit("Ref: House Waybill Number");
    reveal_strlit("Actual Quantity");
    reveal_strlit("Equipment Codes");
    reveal_strlit("Ref: Temperature Range");
    reveal_strlit("Target Delivery (Early)");
    reveal_strlit("Target Ship (Early)");
    reveal_strlit("Target Delivery (Late)");
    reveal_strlit("Target Ship (Late)");
    reveal_strlit("Consignee");
    reveal_strlit("Shipper");
    reveal_strlit("Consignee Name");
    reveal_strlit("Shipper Name");
    reveal_strlit("Consignee Address");
    reveal_strlit("Shipper Address");
    reveal_strlit("Consignee City");
    reveal_strlit("Shipper City");
    reveal_strlit("Consignee State");
    reveal_strlit("Shipper State");
    reveal_strlit("Consignee Postal Code");
    reveal_strlit("Shipper Postal Code");
    reveal_strlit("Consignee Country");
    reveal_strlit("Shipper Country");
}

// ---------------------------------------------------------------------------
// The null-stripping text decode.
// ---------------------------------------------------------------------------
/// The character a 16-bit code unit's low byte stands for.
pub open spec fn low_byte_char(x: int) -> char {
    ((x % 256) as u8) as char
}

/// What one source character contributes after the 16-bit code-unit pass:
/// null code units are dropped, every other unit keeps its low byte.
pub open spec fn decoded_char(c: char) -> Seq<char> {
    let u = c as int;
    if u == 0 {
        Seq::empty()
    } else if u < 0x10000 {
        seq![low_byte_char(u)]
    } else {
        let d = u - 0x10000;
        seq![low_byte_char(0xD800 + d / 0x400), low_byte_char(0xDC00 + d % 0x400)]
    }
}

pub open spec fn decode_from(s: Seq<char>, i: int) -> Seq<char>
    decreases s.len() - i,
{
    if !(0 <= i < s.len()) {
        Seq::empty()
    } else {
        decoded_char(s[i]) + decode_from(s, i + 1)
    }
}

/// The whole decode: each character's 16-bit code units, nulls dropped, low
/// bytes reassembled.
pub open spec fn spec_decode_text(s: Seq<char>) -> Seq<char> {
    decode_from(s, 0)
}

/// Remove all null code units from a string: the text is sent through its
/// 16-bit encoding, null units are dropped, and each remaining unit's low
/// byte is reassembled into a character.
pub fn decode_text(input: &str) -> (r: String)
    ensures
        r@ == spec_decode_text(input@),
{
    let n = input.unicode_len();
    let mut r = String::new();
    let mut i: usize = 0;
    while i < n
        invariant
            i <= n,
            n == input@.len(),
            spec_decode_text(input@) =~= r@ + decode_from(input@, i as int),
        decreases n - i,
    {
        let c = input.get_char(i);
        let u = c as u32;
        let ghost prefix = r@;
        if u == 0 {
            proof {
                assert(decoded_char(c) =~= Seq::<char>::empty());
            }
        } else if u < 0x10000 {
            let b = (u % 256) as u8;
            push_char(&mut r, b as char);
            proof {
                assert(b as char == low_byte_char(u as int));
                assert(decoded_char(c) =~= seq![low_byte_char(u as int)]);
                assert(r@ =~= prefix + decoded_char(c));
            }
        } else {
            let d = u - 0x10000;
            let hi = 0xD800 + d / 0x400;
            let lo = 0xDC00 + d % 0x400;
            let bh = (hi % 256) as u8;
            let bl = (lo % 256) as u8;
            push_char(&mut r, bh as char);
            push_char(&mut r, bl as char);
            proof {
                assert(bh as char == low_byte_char(0xD800 + (u as int - 0x10000) / 0x400));
                assert(bl as char == low_byte_char(0xDC00 + (u as int - 0x10000) % 0x400));
                assert(r@ =~= prefix + decoded_char(c));
            }
        }
        proof {
            assert(decode_from(input@, i as int) =~= decoded_char(c) + decode_from(
                input@,
                i as int + 1,
            ));
            assert(spec_decode_text(input@) =~= r@ + decode_from(input@, i as int + 1));
        }
        i = i + 1;
    }
    proof {
        assert(r@ =~= spec_decode_text(input@));
    }
    r
}

// ---------------------------------------------------------------------------
// Cell conversion and the sheet builder.
// ---------------------------------------------------------------------------
/// The generic value a raw cell converts to: text is decoded, numeric kinds
/// pass through, error and empty cells become the missing marker, ISO
/// date-time and duration text is decoded as text.
pub open spec fn spec_value_of_cell(c: RawCell) -> ValueV {
    match c {
        RawCell::Text(s) => ValueV::Text(spec_decode_text(s@)),
        RawCell::Number(s) => ValueV::Number(s@),
        RawCell::Int(i) => ValueV::Int(i),
        RawCell::Bool(b) => ValueV::Bool(b),
        RawCell::Error => ValueV::Null,
        RawCell::Empty => ValueV::Null,
        RawCell::DateTime(s) => ValueV::Number(s@),
        RawCell::Duration(s) => ValueV::Number(s@),
        RawCell::DateTimeIso(s) => ValueV::Text(spec_decode_text(s@)),
        RawCell::DurationIso(s) => ValueV::Text(spec_decode_text(s@)),
    }
}

/// Convert a raw worksheet cell to a generic table value.
pub fn cell_to_value(c: &RawCell) -> (r: Value)
    ensures
        r@ == spec_value_of_cell(*c),
{
    match c {
        RawCell::Text(s) => Value::Text(decode_text(s.as_str())),
        RawCell::Number(s) => Value::Number(s.clone()),
        RawCell::Int(i) => Value::Int(*i),
        RawCell::Bool(b) => Value::Bool(*b),
        RawCell::Error => Value::Null,
        RawCell::Empty => Value::Null,
        RawCell::DateTime(s) => Value::Number(s.clone()),
        RawCell::Duration(s) => Value::Number(s.clone()),
        RawCell::DateTimeIso(s) => Value::Text(decode_text(s.as_str())),
        RawCell::DurationIso(s) => Value::Text(decode_text(s.as_str())),
    }
}

/// The display form a raw cell is stringified to when it stands in the
/// header row.
pub open spec fn spec_cell_display(c: RawCell) -> Seq<char> {
    match c {
        RawCell::Text(s) => s@,
        RawCell::Number(s) => s@,
        RawCell::Int(i) => int_str(i as int),
        RawCell::Bool(b) => if b {
            "true"@
        } else {
            "false"@
        },
        RawCell::Error => Seq::empty(),
        RawCell::Empty => Seq::empty(),
        RawCell::DateTime(s) => s@,
        RawCell::Duration(s) => s@,
        RawCell::DateTimeIso(s) => s@,
        RawCell::DurationIso(s) => s@,
    }
}

fn cell_display(c: &RawCell) -> (r: String)
    ensures
        r@ == spec_cell_display(*c),
{
    match c {
        RawCell::Text(s) => s.clone(),
        RawCell::Number(s) => s.clone(),
        RawCell::Int(i) => crate::text::i64_to_string(*i),
        RawCell::Bool(b) => if *b {
            String::from_str("true")
        } else {
            String::from_str("false")
        },
        RawCell::Error => String::new(),
        RawCell::Empty => String::new(),
        RawCell::DateTime(s) => s.clone(),
        RawCell::Duration(s) => s.clone(),
        RawCell::DateTimeIso(s) => s.clone(),
        RawCell::DurationIso(s) => s.clone(),
    }
}

/// The header name a header-row cell yields: its display form, sent through
/// the null-stripping decode.
pub open spec fn spec_header_name(c: RawCell) -> Seq<char> {
    spec_decode_text(spec_cell_display(c))
}

/// Get the header names from a decoded sheet's first row; fails when the
/// sheet has no rows at all.
pub fn get_header_names(grid: &Vec<Vec<RawCell>>) -> (r: Result<Vec<String>, ParseFilesError>)
    ensures
        r is Ok <==> grid@.len() > 0,
        r matches Ok(names) ==> ({
            &&& names.deep_view().len() == grid@[0]@.len()
            &&& forall|j: int|
                0 <= j < grid@[0]@.len() ==> #[trigger] names.deep_view()[j] == spec_header_name(
                    grid@[0]@[j],
                )
        }),
        grid@.len() == 0 ==> (r matches Err(e) && e is NoHeadersFound),
{
    if grid.len() == 0 {
        return Err(ParseFilesError::NoHeadersFound);
    }
    let header_row = &grid[0];
    let w = header_row.len();
    let mut names: Vec<String> = Vec::new();
    let mut j: usize = 0;
    while j < w
        invariant
            j <= w,
            w == grid@[0]@.len(),
            grid@.len() > 0,
            header_row@ == grid@[0]@,
            names.deep_view().len() == j as int,
            forall|k: int|
                0 <= k < j ==> #[trigger] names.deep_view()[k] == spec_header_name(grid@[0]@[k]),
        decreases w - j,
    {
        let displayed = cell_display(&header_row[j]);
        let decoded = decode_text(displayed.as_str());
        let ghost prev = names.deep_view();
        names.push(decoded);
        proof {
            assert(names.deep_view() =~= prev.push(spec_header_name(grid@[0]@[j as int])));
        }
        j = j + 1;
    }
    Ok(names)
}

/// The value that lands at column `c`, data row `rw` of the built table:
/// the converted cell, or the missing marker where the row is shorter than
/// the header.
pub open spec fn spec_sheet_cell(grid: Seq<Vec<RawCell>>, c: int, rw: int) -> ValueV {
    if c < grid[rw + 1]@.len() {
        spec_value_of_cell(grid[rw + 1]@[c])
    } else {
        ValueV::Null
    }
}

/// Whether the decoded header names of the sheet are pairwise distinct.
pub open spec fn spec_headers_distinct(grid: Seq<Vec<RawCell>>) -> bool {
    forall|a: int, b: int|
        0 <= a < b < grid[0]@.len() ==> spec_header_name(grid[0]@[a]) != spec_header_name(
            grid[0]@[b],
        )
}

/// Parse a decoded sheet into a table. The first row is the header; every
/// later row supplies one data row, padded with the missing marker where it
/// is shorter than the header. Fails when the sheet has no rows, or when two
/// decoded header names collide.
pub fn parse_sheet(grid: &Vec<Vec<RawCell>>) -> (r: Result<RawTable, ParseFilesError>)
    ensures
        r is Ok <==> (grid@.len() > 0 && spec_headers_distinct(grid@)),
        r matches Ok(out) ==> ({
            &&& out.wf()
            &&& out@.len() == grid@[0]@.len()
            &&& grid@[0]@.len() > 0 ==> table_height(out@) == grid@.len() - 1
            &&& forall|c: int|
                0 <= c < grid@[0]@.len() ==> (#[trigger] out@[c]).name == spec_header_name(
                    grid@[0]@[c],
                )
            &&& forall|c: int, rw: int|
                0 <= c < grid@[0]@.len() && 0 <= rw < grid@.len() - 1 ==> (
                #[trigger] out@[c].values[rw]) == spec_sheet_cell(grid@, c, rw)
        }),
        grid@.len() == 0 ==> (r matches Err(e) && e is NoHeadersFound),
        grid@.len() > 0 && !spec_headers_distinct(grid@) ==> (r matches Err(e)
            && e is TableError),
{
    let names = match get_header_names(grid) {
        Ok(names) => names,
        Err(e) => {
            return Err(e);
        },
    };
    let w = names.len();
    proof {
        assert(names.deep_view().len() == names@.len());
    }
    // Reject colliding header names: every column name must be unique.
    let mut a: usize = 0;
    while a < w
        invariant
            a <= w,
            w == names.deep_view().len(),
            w == grid@[0]@.len(),
            grid@.len() > 0,
            forall|k: int|
                0 <= k < w ==> #[trigger] names.deep_view()[k] == spec_header_name(grid@[0]@[k]),
            forall|x: int, y: int|
                0 <= x < y < w && x < a ==> names.deep_view()[x] != names.deep_view()[y],
        decreases w - a,
    {
        let mut b: usize = a + 1;
        while b < w
            invariant
                a < b <= w || w == 0,
                a < w,
                w == names.deep_view().len(),
                w == grid@[0]@.len(),
                grid@.len() > 0,
                forall|k: int|
                    0 <= k < w ==> #[trigger] names.deep_view()[k] == spec_header_name(
                        grid@[0]@[k],
                    ),
                forall|y: int| a < y < b ==> names.deep_view()[a as int] != names.deep_view()[y],
            decreases w - b,
        {
            if str_eq(names[a].as_str(), names[b].as_str()) {
                let mut m = String::from_str("duplicate column name: ");
                m.append(names[a].as_str());
                proof {
                    assert(names.deep_view()[a as int] == spec_header_name(grid@[0]@[a as int]));
                    assert(names.deep_view()[b as int] == spec_header_name(grid@[0]@[b as int]));
                }
                return Err(ParseFilesError::TableError(m));
            }
            b = b + 1;
        }
        a = a + 1;
    }
    proof {
        assert forall|x: int, y: int|
            0 <= x < y < grid@[0]@.len() implies spec_header_name(grid@[0]@[x])
            != spec_header_name(grid@[0]@[y]) by {
            assert(names.deep_view()[x] != names.deep_view()[y]);
        }
    }
    let height = grid.len() - 1;
    let mut cols: Vec<Column> = Vec::new();
    let mut c: usize = 0;
    while c < w
        invariant
            c <= w,
            w == names.deep_view().len(),
            w == grid@[0]@.len(),
            grid@.len() > 0,
            height == grid@.len() - 1,
            forall|x: int, y: int|
                0 <= x < y < w ==> names.deep_view()[x] != names.deep_view()[y],
            forall|k: int|
                0 <= k < w ==> #[trigger] names.deep_view()[k] == spec_header_name(grid@[0]@[k]),
            cols.deep_view().len() == c as int,
            forall|k: int|
                0 <= k < c ==> (#[trigger] cols.deep_view()[k]).name == names.deep_view()[k]
                    && cols.deep_view()[k].values.len() == height,
            forall|k: int, rw: int|
                0 <= k < c && 0 <= rw < height ==> (#[trigger] cols.deep_view()[k].values[rw])
                    == spec_sheet_cell(grid@, k, rw),
        decreases w - c,
    {
        let mut vals: Vec<Value> = Vec::new();
        let mut rw: usize = 0;
        while rw < height
            invariant
                rw <= height,
                c < w,
                w == grid@[0]@.len(),
                grid@.len() > 0,
                height == grid@.len() - 1,
                vals.deep_view().len() == rw as int,
                forall|k: int|
                    0 <= k < rw ==> #[trigger] vals.deep_view()[k] == spec_sheet_cell(
                        grid@,
                        c as int,
                        k,
                    ),
            decreases height - rw,
        {
            let row = &grid[rw + 1];
            let v = if c < row.len() {
                cell_to_value(&row[c])
            } else {
                Value::Null
            };
            let ghost prev = vals.deep_view();
            vals.push(v);
            proof {
                assert(vals.deep_view() =~= prev.push(spec_sheet_cell(grid@, c as int, rw as int)));
            }
            rw = rw + 1;
        }
        let name = names[c].clone();
        let ghost prev = cols.deep_view();
        let ghost valsv = vals.deep_view();
        cols.push(Column { name, values: vals });
        proof {
            assert(cols.deep_view() =~= prev.push(
                ColumnV { name: names.deep_view()[c as int], values: valsv },
            ));
        }
        c = c + 1;
    }
    let out = RawTable { columns: cols };
    proof {
        if w > 0 {
            assert(out@[0].values.len() == height);
            assert(table_height(out@) == height);
        }
    }
    Ok(out)
}

/// Require the workbook to expose exactly one sheet, the count the pipeline
/// supports; any other count is the structural `InvalidSheetCount` failure.
pub fn require_single_sheet(sheet_count: usize) -> (r: Result<(), ParseFilesError>)
    ensures
        r is Ok <==> sheet_count == 1,
        sheet_count != 1 ==> (r matches Err(e) && e matches ParseFilesError::InvalidSheetCount(c)
            && c.0 == 1 && c.1 == sheet_count as i32),
{
    if sheet_count != 1 {
        return Err(ParseFilesError::InvalidSheetCount((1, sheet_count as i32)));
    }
    Ok(())
}


// ---------------------------------------------------------------------------
// The pipeline: project, join, assemble.
// ---------------------------------------------------------------------------
/// Whether a CL-View table carries every column its projection reads.
pub open spec fn cl_columns_ok(t: Seq<ColumnV>, mode: DispoMode) -> bool {
    &&& has_col(t, cm_job_number())
    &&& has_col(t, cm_quantity())
    &&& has_col(t, cm_equipment_codes())
    &&& has_col(t, cm_target_early(mode))
    &&& has_col(t, cm_target_late(mode))
    &&& has_col(t, cm_info(mode))
    &&& has_col(t, cm_name(mode))
    &&& has_col(t, cm_address(mode))
    &&& has_col(t, cm_city(mode))
    &&& has_col(t, cm_state(mode))
    &&& has_col(t, cm_postal_code(mode))
    &&& has_col(t, cm_country(mode))
}

/// Whether a Shipper/Site table carries every column its projection reads.
pub open spec fn ss_columns_ok(t: Seq<ColumnV>) -> bool {
    &&& has_col(t, cm_job_number())
    &&& has_col(t, cm_hawb())
    &&& has_col(t, cm_temperature_range())
}

/// The job record one matching row pair of the two source tables produces
/// under `mode`: the left row supplies the quantities, dates and the
/// mode-selected address family, the right row the HAWB and the temperature
/// text.
pub open spec fn spec_created_row(
    cl: Seq<ColumnV>,
    ss: Seq<ColumnV>,
    mode: DispoMode,
    pr: (int, int),
) -> JobRowV {
    let e = spec_date_of_value(col_values(cl, cm_target_early(mode))[pr.0]);
    let l = spec_date_of_value(col_values(cl, cm_target_late(mode))[pr.0]);
    JobRowV {
        mode,
        job_number: string_of_value(col_values(cl, cm_job_number())[pr.0]),
        hawb_number: string_of_value(col_values(ss, cm_hawb())[pr.1]),
        temperature_ranges: spec_temps_of_value(col_values(ss, cm_temperature_range())[pr.1]),
        quantities: spec_i32_of_value(col_values(cl, cm_quantity())[pr.0]).unwrap() as i32,
        address: string_of_value(col_values(cl, cm_address(mode))[pr.0]),
        postal_code: string_of_value(col_values(cl, cm_postal_code(mode))[pr.0]),
        city: string_of_value(col_values(cl, cm_city(mode))[pr.0]),
        country: string_of_value(col_values(cl, cm_country(mode))[pr.0]),
        equipment: string_of_value(col_values(cl, cm_equipment_codes())[pr.0]),
        tolerance: tolerance_secs(e.secs as int, l.secs as int) as i32,
        early_date: e,
        late_date: l,
        calculated_date: (DateTime { secs: midpoint_secs(e.secs as int, l.secs as int) as i64 }),
        contact_name: string_of_value(col_values(cl, cm_name(mode))[pr.0]),
    }
}

/// The physical column names of the two projections, pairwise distinct
/// within either mode and across the two sides.
proof fn lemma_cm_names_distinct(mode: DispoMode)
    ensures
        cm_job_number() != cm_quantity(),
        cm_job_number() != cm_equipment_codes(),
        cm_job_number() != cm_target_early(mode),
        cm_job_number() != cm_target_late(mode),
        cm_job_number() != cm_info(mode),
        cm_job_number() != cm_name(mode),
        cm_job_number() != cm_address(mode),
        cm_job_number() != cm_city(mode),
        cm_job_number() != cm_state(mode),
        cm_job_number() != cm_postal_code(mode),
        cm_job_number() != cm_country(mode),
        cm_job_number() != cm_hawb(),
        cm_job_number() != cm_temperature_range(),
        cm_quantity() != cm_equipment_codes(),
        cm_quantity() != cm_target_early(mode),
        cm_quantity() != cm_target_late(mode),
        cm_quantity() != cm_info(mode),
        cm_quantity() != cm_name(mode),
        cm_quantity() != cm_address(mode),
        cm_quantity() != cm_city(mode),
        cm_quantity() != cm_state(mode),
        cm_quantity() != cm_postal_code(mode),
        cm_quantity() != cm_country(mode),
        cm_quantity() != cm_hawb(),
        cm_quantity() != cm_temperature_range(),
        cm_equipment_codes() != cm_target_early(mode),
        cm_equipment_codes() != cm_target_late(mode),
        cm_equipment_codes() != cm_info(mode),
        cm_equipment_codes() != cm_name(mode),
        cm_equipment_codes() != cm_address(mode),
        cm_equipment_codes() != cm_city(mode),
        cm_equipment_codes() != cm_state(mode),
        cm_equipment_codes() != cm_postal_code(mode),
        cm_equipment_codes() != cm_country(mode),
        cm_equipment_codes() != cm_hawb(),
        cm_equipment_codes() != cm_temperature_range(),
        cm_target_early(mode) != cm_target_late(mode),
        cm_target_early(mode) != cm_info(mode),
        cm_target_early(mode) != cm_name(mode),
        cm_target_early(mode) != cm_address(mode),
        cm_target_early(mode) != cm_city(mode),
        cm_target_early(mode) != cm_state(mode),
        cm_target_early(mode) != cm_postal_code(mode),
        cm_target_early(mode) != cm_country(mode),
        cm_target_early(mode) != cm_hawb(),
        cm_target_early(mode) != cm_temperature_range(),
        cm_target_late(mode) != cm_info(mode),
        cm_target_late(mode) != cm_name(mode),
        cm_target_late(mode) != cm_address(mode),
        cm_target_late(mode) != cm_city(mode),
        cm_target_late(mode) != cm_state(mode),
        cm_target_late(mode) != cm_postal_code(mode),
        cm_target_late(mode) != cm_country(mode),
        cm_target_late(mode) != cm_hawb(),
        cm_target_late(mode) != cm_temperature_range(),
        cm_info(mode) != cm_name(mode),
        cm_info(mode) != cm_address(mode),
        cm_info(mode) != cm_city(mode),
        cm_info(mode) != cm_state(mode),
        cm_info(mode) != cm_postal_code(mode),
        cm_info(mode) != cm_country(mode),
        cm_info(mode) != cm_hawb(),
        cm_info(mode) != cm_temperature_range(),
        cm_name(mode) != cm_address(mode),
        cm_name(mode) != cm_city(mode),
        cm_name(mode) != cm_state(mode),
        cm_name(mode) != cm_postal_code(mode),
        cm_name(mode) != cm_country(mode),
        cm_name(mode) != cm_hawb(),
        cm_name(mode) != cm_temperature_range(),
        cm_address(mode) != cm_city(mode),
        cm_address(mode) != cm_state(mode),
        cm_address(mode) != cm_postal_code(mode),
        cm_address(mode) != cm_country(mode),
        cm_address(mode) != cm_hawb(),
        cm_address(mode) != cm_temperature_range(),
        cm_city(mode) != cm_state(mode),
        cm_city(mode) != cm_postal_code(mode),
        cm_city(mode) != cm_country(mode),
        cm_city(mode) != cm_hawb(),
        cm_city(mode) != cm_temperature_range(),
        cm_state(mode) != cm_postal_code(mode),
        cm_state(mode) != cm_country(mode),
        cm_state(mode) != cm_hawb(),
        cm_state(mode) != cm_temperature_range(),
        cm_postal_code(mode) != cm_country(mode),
        cm_postal_code(mode) != cm_hawb(),
        cm_postal_code(mode) != cm_temperature_range(),
        cm_country(mode) != cm_hawb(),
        cm_country(mode) != cm_temperature_range(),
        cm_hawb() != cm_temperature_range(),
{
    reveal_strlit("Load #");
    reveal_strlit("Ref: House Waybill Number");
    reveal_strlit("Actual Quantity");
    reveal_strlit("Equipment Codes");
    reveal_strlit("Ref: Temperature Range");
    reveal_strlit("Target Delivery (Early)");
    reveal_strlit("Target Ship (Early)");
    reveal_strlit("Target Delivery (Late)");
    reveal_strlit("Target Ship (Late)");
    reveal_strlit("Consignee");
    reveal_strlit("Shipper");
    reveal_strlit("Consignee Name");
    reveal_strlit("Shipper Name");
    reveal_strlit("Consignee Address");
    reveal_strlit("Shipper Address");
    reveal_strlit("Consignee City");
    reveal_strlit("Shipper City");
    reveal_strlit("Consignee State");
    reveal_strlit("Shipper State");
    reveal_strlit("Consignee Postal Code");
    reveal_strlit("Shipper Postal Code");
    reveal_strlit("Consignee Country");
    reveal_strlit("Shipper Country");
    assert("Load #"@.len() == 6);
    assert("Ref: House Waybill Number"@.len() == 25);
    assert("Actual Quantity"@.len() == 15);
    assert("Equipment Codes"@.len() == 15);
    assert("Ref: Temperature Range"@.len() == 22);
    assert("Target Delivery (Early)"@.len() == 23);
    assert("Target Ship (Early)"@.len() == 19);
    assert("Target Delivery (Late)"@.len() == 22);
    assert("Target Ship (Late)"@.len() == 18);
    assert("Consignee"@.len() == 9);
    assert("Shipper"@.len() == 7);
    assert("Consignee Name"@.len() == 14);
    assert("Shipper Name"@.len() == 12);
    assert("Consignee Address"@.len() == 17);
    assert("Shipper Address"@.len() == 15);
    assert("Consignee City"@.len() == 14);
    assert("Shipper City"@.len() == 12);
    assert("Consignee State"@.len() == 15);
    assert("Shipper State"@.len() == 13);
    assert("Consignee Postal Code"@.len() == 21);
    assert("Shipper Postal Code"@.len() == 19);
    assert("Consignee Country"@.len() == 17);
    assert("Shipper Country"@.len() == 15);
    assert("Actual Quantity"@[0] == 'A');
    assert("Consignee Address"@[10] == 'A');
    assert("Consignee City"@[10] == 'C');
    assert("Consignee Country"@[10] == 'C');
    assert("Consignee Name"@[10] == 'N');
    assert("Consignee State"@[0] == 'C');
    assert("Equipment Codes"@[0] == 'E');
    assert("Ref: Temperature Range"@[0] == 'R');
    assert("Shipper Address"@[0] == 'S');
    assert("Shipper Address"@[8] == 'A');
    assert("Shipper City"@[8] == 'C');
    assert("Shipper Country"@[0] == 'S');
    assert("Shipper Country"@[8] == 'C');
    assert("Shipper Name"@[8] == 'N');
    assert("Shipper Postal Code"@[0] == 'S');
    assert("Target Delivery (Late)"@[0] == 'T');
    assert("Target Ship (Early)"@[0] == 'T');
}

/// Select only the wanted columns from a CL-View table, in the fixed
/// projection order.
fn select_columns_cl_view(df: &RawTable, mapping: &ColumnMapping, Ghost(mode): Ghost<
    DispoMode,
>) -> (r: Result<RawTable, ParseFilesError>)
    requires
        df.wf(),
        column_mapping_matches(mode, *mapping),
    ensures
        r is Ok <==> cl_columns_ok(df@, mode),
        r matches Ok(out) ==> ({
            &&& out.wf()
            &&& out@.len() == 12
            &&& table_height(out@) == table_height(df@)
            &&& out@[0].name == cm_job_number() && out@[0].values == col_values(
                df@,
                cm_job_number(),
            )
            &&& out@[1].name == cm_quantity() && out@[1].values == col_values(df@, cm_quantity())
            &&& out@[2].name == cm_equipment_codes() && out@[2].values == col_values(
                df@,
                cm_equipment_codes(),
            )
            &&& out@[3].name == cm_target_early(mode) && out@[3].values == col_values(
                df@,
                cm_target_early(mode),
            )
            &&& out@[4].name == cm_target_late(mode) && out@[4].values == col_values(
                df@,
                cm_target_late(mode),
            )
            &&& out@[5].name == cm_info(mode) && out@[5].values == col_values(df@, cm_info(mode))
            &&& out@[6].name == cm_name(mode) && out@[6].values == col_values(df@, cm_name(mode))
            &&& out@[7].name == cm_address(mode) && out@[7].values == col_values(
                df@,
                cm_address(mode),
            )
            &&& out@[8].name == cm_city(mode) && out@[8].values == col_values(df@, cm_city(mode))
            &&& out@[9].name == cm_state(mode) && out@[9].values == col_values(
                df@,
                cm_state(mode),
            )
            &&& out@[10].name == cm_postal_code(mode) && out@[10].values == col_values(
                df@,
                cm_postal_code(mode),
            )
            &&& out@[11].name == cm_country(mode) && out@[11].values == col_values(
                df@,
                cm_country(mode),
            )
        }),
        r matches Err(e) ==> (e is TableError),
{
    let names: [&str; 12] = [
        mapping.job_number,
        mapping.quantity,
        mapping.equipment_codes,
        mapping.target_early,
        mapping.target_late,
        mapping.info,
        mapping.name,
        mapping.address,
        mapping.city,
        mapping.state,
        mapping.postal_code,
        mapping.country,
    ];
    let slice = names.as_slice();
    proof {
        lemma_cm_names_distinct(mode);
        assert(slice@.len() == 12);
        assert(slice@[0]@ == cm_job_number());
        assert(slice@[1]@ == cm_quantity());
        assert(slice@[2]@ == cm_equipment_codes());
        assert(slice@[3]@ == cm_target_early(mode));
        assert(slice@[4]@ == cm_target_late(mode));
        assert(slice@[5]@ == cm_info(mode));
        assert(slice@[6]@ == cm_name(mode));
        assert(slice@[7]@ == cm_address(mode));
        assert(slice@[8]@ == cm_city(mode));
        assert(slice@[9]@ == cm_state(mode));
        assert(slice@[10]@ == cm_postal_code(mode));
        assert(slice@[11]@ == cm_country(mode));
        assert forall|i: int, j: int| 0 <= i < j < slice@.len() implies slice@[i]@ != slice@[j]@
            by {
            assert(0 <= i < 12 && 0 <= j < 12);
        }
    }
    let r = df.select(slice);
    proof {
        if r is Ok {
            assert(has_col(df@, slice@[0]@));
            assert(has_col(df@, slice@[1]@));
            assert(has_col(df@, slice@[2]@));
            assert(has_col(df@, slice@[3]@));
            assert(has_col(df@, slice@[4]@));
            assert(has_col(df@, slice@[5]@));
            assert(has_col(df@, slice@[6]@));
            assert(has_col(df@, slice@[7]@));
            assert(has_col(df@, slice@[8]@));
            assert(has_col(df@, slice@[9]@));
            assert(has_col(df@, slice@[10]@));
            assert(has_col(df@, slice@[11]@));
        }
    }
    r
}

/// Select only the wanted columns from a Shipper/Site table, in the fixed
/// projection order.
fn select_columns_shipper_site(df: &RawTable, mapping: &ColumnMapping, Ghost(mode): Ghost<
    DispoMode,
>) -> (r: Result<RawTable, ParseFilesError>)
    requires
        df.wf(),
        column_mapping_matches(mode, *mapping),
    ensures
        r is Ok <==> ss_columns_ok(df@),
        r matches Ok(out) ==> ({
            &&& out.wf()
            &&& out@.len() == 3
            &&& table_height(out@) == table_height(df@)
            &&& out@[0].name == cm_job_number() && out@[0].values == col_values(
                df@,
                cm_job_number(),
            )
            &&& out@[1].name == cm_hawb() && out@[1].values == col_values(df@, cm_hawb())
            &&& out@[2].name == cm_temperature_range() && out@[2].values == col_values(
                df@,
                cm_temperature_range(),
            )
        }),
        r matches Err(e) ==> (e is TableError),
{
    let names: [&str; 3] = [mapping.job_number, mapping.hawb, mapping.temperature_range];
    let slice = names.as_slice();
    proof {
        lemma_cm_names_distinct(mode);
        assert(slice@.len() == 3);
        assert(slice@[0]@ == cm_job_number());
        assert(slice@[1]@ == cm_hawb());
        assert(slice@[2]@ == cm_temperature_range());
        assert forall|i: int, j: int| 0 <= i < j < slice@.len() implies slice@[i]@ != slice@[j]@
            by {
            assert(0 <= i < 3 && 0 <= j < 3);
        }
    }
    let r = df.select(slice);
    proof {
        if r is Ok {
            assert(has_col(df@, slice@[0]@));
            assert(has_col(df@, slice@[1]@));
            assert(has_col(df@, slice@[2]@));
        }
    }
    r
}

/// The whole pipeline on two already-built tables: project each side onto
/// its needed columns, inner-join on the job number, and assemble one job
/// record per matching row pair, in left-major order.
pub fn create_job_rows(cl_view: &RawTable, shipper_site: &RawTable, mode: DispoMode) -> (r:
    Result<Vec<JobRow>, ParseFilesError>)
    requires
        cl_view.wf(),
        shipper_site.wf(),
    ensures
        r is Ok <==> (cl_columns_ok(cl_view@, mode) && ss_columns_ok(shipper_site@) && (forall|
            p: int,
        |
            0 <= p < join_pairs(
                col_values(cl_view@, cm_job_number()),
                col_values(shipper_site@, cm_job_number()),
            ).len() ==> spec_i32_of_value(
                col_values(cl_view@, cm_quantity())[(#[trigger] join_pairs(
                    col_values(cl_view@, cm_job_number()),
                    col_values(shipper_site@, cm_job_number()),
                )[p]).0],
            ) is Some)),
        r matches Ok(rows) ==> ({
            let pairs = join_pairs(
                col_values(cl_view@, cm_job_number()),
                col_values(shipper_site@, cm_job_number()),
            );
            &&& rows.deep_view().len() == pairs.len()
            &&& forall|p: int|
                0 <= p < pairs.len() ==> #[trigger] rows.deep_view()[p] == spec_created_row(
                    cl_view@,
                    shipper_site@,
                    mode,
                    pairs[p],
                )
        }),
        r matches Err(e) ==> (e is TableError || e is AnyValueToNumericParse),
{
    let column_mapping = ColumnMapping::new(mode);
    let cl = match select_columns_cl_view(cl_view, &column_mapping, Ghost(mode)) {
        Ok(t) => t,
        Err(e) => {
            return Err(e);
        },
    };
    let shipper = match select_columns_shipper_site(shipper_site, &column_mapping, Ghost(mode)) {
        Ok(t) => t,
        Err(e) => {
            return Err(e);
        },
    };
    proof {
        lemma_cm_names_distinct(mode);
        lemma_col_lookup(cl@, 0);
        lemma_col_lookup(shipper@, 0);
        assert(col_values(cl@, cm_job_number()) == col_values(cl_view@, cm_job_number()));
        assert(col_values(shipper@, cm_job_number()) == col_values(
            shipper_site@,
            cm_job_number(),
        ));
        assert(col_index_from(shipper@, cm_job_number(), 0) == 0);
        assert forall|j: int|
            0 <= j < shipper@.len() && j != col_index_from(
                shipper@,
                cm_job_number(),
                0,
            ) implies !has_col(cl@, (#[trigger] shipper@[j]).name) by {
            lemma_no_col(cl@, shipper@[j].name);
        }
    }
    let joined = match cl.inner_join(&shipper, "Load #") {
        Ok(t) => t,
        Err(e) => {
            return Err(e);
        },
    };
    let ghost gpairs = join_pairs(
        col_values(cl_view@, cm_job_number()),
        col_values(shipper_site@, cm_job_number()),
    );
    proof {
        assert(joined@.len() == 14);
        assert(right_out_index(12, 0, 1) == 12);
        assert(right_out_index(12, 0, 2) == 13);
        assert(joined@[12].name == cm_hawb());
        assert(joined@[13].name == cm_temperature_range());
        lemma_col_lookup(joined@, 0);
        lemma_col_lookup(joined@, 1);
        lemma_col_lookup(joined@, 2);
        lemma_col_lookup(joined@, 3);
        lemma_col_lookup(joined@, 4);
        lemma_col_lookup(joined@, 5);
        lemma_col_lookup(joined@, 6);
        lemma_col_lookup(joined@, 7);
        lemma_col_lookup(joined@, 8);
        lemma_col_lookup(joined@, 9);
        lemma_col_lookup(joined@, 10);
        lemma_col_lookup(joined@, 11);
        lemma_col_lookup(joined@, 12);
        lemma_col_lookup(joined@, 13);
        assert(from_table_cols_ok(joined@, mode));
        assert(table_height(joined@) == gpairs.len());
        assert(col_values(joined@, cm_quantity()) == joined@[1].values);
        assert(col_values(joined@, cm_quantity()).len() == gpairs.len());
    }
    let rows = match JobRow::from_table(&joined, mode) {
        Ok(rows) => rows,
        Err(e) => {
            proof {
                assert(!i32_col_ok(col_values(joined@, cm_quantity())));
                if forall|p: int|
                    0 <= p < gpairs.len() ==> spec_i32_of_value(
                        col_values(cl_view@, cm_quantity())[(#[trigger] gpairs[p]).0],
                    ) is Some {
                    assert forall|k: int|
                        0 <= k < col_values(joined@, cm_quantity()).len() implies spec_i32_of_value(
                        #[trigger] col_values(joined@, cm_quantity())[k],
                    ) is Some by {
                        assert(joined@[1].values[k] == cl@[1].values[gpairs[k].0]);
                        assert(spec_i32_of_value(
                            col_values(cl_view@, cm_quantity())[gpairs[k].0],
                        ) is Some);
                    }
                    assert(false);
                }
            }
            return Err(e);
        },
    };
    proof {
        assert(i32_col_ok(col_values(joined@, cm_quantity())));
        assert forall|p: int|
            0 <= p < gpairs.len() implies spec_i32_of_value(
            col_values(cl_view@, cm_quantity())[(#[trigger] gpairs[p]).0],
        ) is Some by {
            assert(joined@[1].values[p] == cl@[1].values[gpairs[p].0]);
            assert(spec_i32_of_value(col_values(joined@, cm_quantity())[p]) is Some);
        }
        assert(rows.deep_view().len() == gpairs.len());
        assert forall|p: int| 0 <= p < gpairs.len() implies #[trigger] rows.deep_view()[p]
            == spec_created_row(cl_view@, shipper_site@, mode, gpairs[p]) by {
            assert(rows.deep_view()[p] == spec_job_row_at(joined@, mode, p));
            assert(joined@[0].values[p] == cl@[0].values[gpairs[p].0]);
            assert(joined@[1].values[p] == cl@[1].values[gpairs[p].0]);
            assert(joined@[2].values[p] == cl@[2].values[gpairs[p].0]);
            assert(joined@[3].values[p] == cl@[3].values[gpairs[p].0]);
            assert(joined@[4].values[p] == cl@[4].values[gpairs[p].0]);
            assert(joined@[6].values[p] == cl@[6].values[gpairs[p].0]);
            assert(joined@[7].values[p] == cl@[7].values[gpairs[p].0]);
            assert(joined@[8].values[p] == cl@[8].values[gpairs[p].0]);
            assert(joined@[10].values[p] == cl@[10].values[gpairs[p].0]);
            assert(joined@[11].values[p] == cl@[11].values[gpairs[p].0]);
            assert(joined@[12].values[p] == shipper@[1].values[gpairs[p].1]);
            assert(joined@[13].values[p] == shipper@[2].values[gpairs[p].1]);
            assert(rows.deep_view()[p] =~= spec_created_row(
                cl_view@,
                shipper_site@,
                mode,
                gpairs[p],
            ));
        }
    }
    Ok(rows)
}

} // verus!
