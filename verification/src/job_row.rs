//! The job-record model: dispo modes, temperature-range tags, per-cell
//! coercions, the per-column extractors, and the assembly of `JobRow`
//! records from a joined table.

use vstd::prelude::*;
use vstd::string::{StrSliceExecFns, StringExecFns};

use crate::cell::{string_of_value, Value, ValueV};
use crate::dates::{
    is_display_of_instant, midpoint_secs, spec_digits_end, spec_num_val, spec_parse_datetime,
    tolerance_secs, DateTime,
};
use crate::file_parsing::{
    cm_address, cm_city, cm_country, cm_equipment_codes, cm_hawb, cm_job_number, cm_name,
    cm_postal_code, cm_quantity, cm_target_early, cm_target_late, cm_temperature_range,
    ColumnMapping,
};
use crate::parse_error::ParseFilesError;
use crate::table::{col_values, has_col, table_height, RawTable};
use crate::text::{digit_val, int_str, is_digit_char, spec_trim, str_eq, trim_str};

verus! {

/// The mode of a dispo operation: a delivery (consignee-facing) or a pickup
/// (shipper-facing) batch.
#[derive(Debug, Copy, Clone, PartialEq, Eq, Structural)]
pub enum DispoMode {
    Delivery,
    Pickup,
}

/// Error for a mode string that is neither `Delivery` nor `Pickup`; carries
/// the offending string.
#[derive(Debug)]
pub struct StringToDispoModeError(pub String);

impl StringToDispoModeError {
    /// The displayable description of this error, as a sequence.
    pub open spec fn message_view(&self) -> Seq<char> {
        "Error parsing '"@ + self.0@ + "' to a DispoMode. Expected 'Delivery' or 'Pickup'"@
    }

    /// The displayable description of this error.
    pub fn message(&self) -> (r: String)
        ensures
            r@ == self.message_view(),
    {
        let mut r = String::from_str("Error parsing '");
        r.append(self.0.as_str());
        r.append("' to a DispoMode. Expected 'Delivery' or 'Pickup'");
        r
    }
}

impl DispoMode {
    /// Create a DispoMode from a string; exactly `Delivery` and `Pickup` are
    /// accepted, case-sensitively.
    pub fn from_str(value: &str) -> (r: Result<Self, StringToDispoModeError>)
        ensures
            value@ == "Delivery"@ ==> r == Ok::<DispoMode, StringToDispoModeError>(DispoMode::Delivery),
            value@ == "Pickup"@ ==> r == Ok::<DispoMode, StringToDispoModeError>(DispoMode::Pickup),
            value@ != "Delivery"@ && value@ != "Pickup"@ ==> (r matches Err(e) && e.0@ == value@),
    {
        proof {
            reveal_strlit("Delivery");
            reveal_strlit("Pickup");
            assert("Delivery"@.len() == 8);
            assert("Pickup"@.len() == 6);
        }
        if str_eq(value, "Delivery") {
            Ok(DispoMode::Delivery)
        } else if str_eq(value, "Pickup") {
            Ok(DispoMode::Pickup)
        } else {
            Err(StringToDispoModeError(value.to_owned()))
        }
    }

    /// The display name of the mode.
    pub fn to_display_string(&self) -> (r: String)
        ensures
            r@ == mode_display(*self),
    {
        match self {
            DispoMode::Delivery => String::from_str("Delivery"),
            DispoMode::Pickup => String::from_str("Pickup"),
        }
    }
}

/// The normalized classification of a free-text shipping temperature
/// requirement.
#[derive(Debug, Copy, Clone, PartialEq, Eq, Structural)]
pub enum TemperatureRange {
    DryIce,
    DryShipper,
    Refrigerated,
    ControlledAmbient,
    Frozen,
    Ambient,
    NonSOP,
    Invalid,
}

impl DeepView for TemperatureRange {
    type V = TemperatureRange;

    open spec fn deep_view(&self) -> TemperatureRange {
        *self
    }
}

/// Error for a descriptive string outside the fixed temperature table;
/// carries the offending string.
#[derive(Debug, Clone)]
pub struct StringToTemperatureRangeError(pub String);

impl StringToTemperatureRangeError {
    /// The displayable description of this error, as a sequence.
    pub open spec fn message_view(&self) -> Seq<char> {
        "String can not be parsed to TemperatureRange: "@ + self.0@
    }

    /// The displayable description of this error.
    pub fn message(&self) -> (r: String)
        ensures
            r@ == self.message_view(),
    {
        let mut r = String::from_str("String can not be parsed to TemperatureRange: ");
        r.append(self.0.as_str());
        r
    }
}

/// The fixed table of descriptive strings and their tags; `None` for any
/// other string.
pub open spec fn spec_temp_tag(s: Seq<char>) -> Option<TemperatureRange> {
    if s == "Frozen Dry Ice -80C to -20C"@ {
        Some(TemperatureRange::DryIce)
    } else if s == "Deep Frozen Dry Ice -70C [+/-10C]"@ {
        Some(TemperatureRange::DryIce)
    } else if s == "Cryogenics -190C to -150C"@ {
        Some(TemperatureRange::DryShipper)
    } else if s == "Refrigerated +2C to +8C"@ {
        Some(TemperatureRange::Refrigerated)
    } else if s == "Controlled Ambient +15C to +25C"@ {
        Some(TemperatureRange::ControlledAmbient)
    } else if s == "Frozen -25C to -15C"@ {
        Some(TemperatureRange::Frozen)
    } else if s == "Ambient"@ {
        Some(TemperatureRange::Ambient)
    } else if s == "Frozen -50C  [+/-10C]"@ {
        Some(TemperatureRange::NonSOP)
    } else {
        None
    }
}

impl TemperatureRange {
    /// Create a TemperatureRange from a descriptive string, matched
    /// case-exactly against the fixed table.
    pub fn from_str(value: &str) -> (r: Result<Self, StringToTemperatureRangeError>)
        ensures
            spec_temp_tag(value@) is Some ==> r == Ok::<TemperatureRange, StringToTemperatureRangeError>(spec_temp_tag(value@).unwrap()),
            spec_temp_tag(value@) is None ==> (r matches Err(e) && e.0@ == value@),
    {
        proof {
            reveal_strlit("Frozen Dry Ice -80C to -20C");
            reveal_strlit("Deep Frozen Dry Ice -70C [+/-10C]");
            reveal_strlit("Cryogenics -190C to -150C");
            reveal_strlit("Refrigerated +2C to +8C");
            reveal_strlit("Controlled Ambient +15C to +25C");
            reveal_strlit("Frozen -25C to -15C");
            reveal_strlit("Ambient");
            reveal_strlit("Frozen -50C  [+/-10C]");
        }
        if str_eq(value, "Frozen Dry Ice -80C to -20C") {
            Ok(TemperatureRange::DryIce)
        } else if str_eq(value, "Deep Frozen Dry Ice -70C [+/-10C]") {
            Ok(TemperatureRange::DryIce)
        } else if str_eq(value, "Cryogenics -190C to -150C") {
            Ok(TemperatureRange::DryShipper)
        } else if str_eq(value, "Refrigerated +2C to +8C") {
            Ok(TemperatureRange::Refrigerated)
        } else if str_eq(value, "Controlled Ambient +15C to +25C") {
            Ok(TemperatureRange::ControlledAmbient)
        } else if str_eq(value, "Frozen -25C to -15C") {
            Ok(TemperatureRange::Frozen)
        } else if str_eq(value, "Ambient") {
            Ok(TemperatureRange::Ambient)
        } else if str_eq(value, "Frozen -50C  [+/-10C]") {
            Ok(TemperatureRange::NonSOP)
        } else {
            Err(StringToTemperatureRangeError(value.to_owned()))
        }
    }

    /// The display name of the tag.
    pub fn to_display_string(&self) -> (r: String)
        ensures
            r@ == tag_display(*self),
    {
        match self {
            TemperatureRange::DryIce => String::from_str("Dry Ice"),
            TemperatureRange::DryShipper => String::from_str("Dry Shipper"),
            TemperatureRange::Refrigerated => String::from_str("Refrigerated"),
            TemperatureRange::ControlledAmbient => String::from_str("Controlled Ambient"),
            TemperatureRange::Frozen => String::from_str("Frozen"),
            TemperatureRange::Ambient => String::from_str("Ambient"),
            TemperatureRange::NonSOP => String::from_str("Non SOP"),
            TemperatureRange::Invalid => String::from_str("Invalid"),
        }
    }
}

/// The tag of one comma-separated segment: the table entry, or `Invalid` for
/// text outside the table.
pub open spec fn tag_or_invalid(s: Seq<char>) -> TemperatureRange {
    match spec_temp_tag(s) {
        Some(t) => t,
        None => TemperatureRange::Invalid,
    }
}

/// The comma-separated segments of `s[start..]`, scanning from `i`.
pub open spec fn split_from(s: Seq<char>, start: int, i: int) -> Seq<Seq<char>>
    recommends
        0 <= start <= i <= s.len(),
    decreases s.len() - i,
{
    if !(0 <= i < s.len()) {
        seq![s.subrange(start, s.len() as int)]
    } else if s[i] == ',' {
        seq![s.subrange(start, i)] + split_from(s, i + 1, i + 1)
    } else {
        split_from(s, start, i + 1)
    }
}

/// The temperature tags of one free-text cell: the empty string is Ambient,
/// otherwise each comma-separated segment is trimmed and matched against the
/// fixed table.
pub open spec fn spec_extract_temp_ranges(s: Seq<char>) -> Seq<TemperatureRange> {
    if s.len() == 0 {
        seq![TemperatureRange::Ambient]
    } else {
        split_from(s, 0, 0).map_values(|seg: Seq<char>| tag_or_invalid(spec_trim(seg)))
    }
}

/// Extract the temperature ranges from a comma-separated descriptive string.
pub fn extract_temperature_ranges(input: &str) -> (r: Vec<TemperatureRange>)
    ensures
        r@ == spec_extract_temp_ranges(input@),
{
    let ghost f = |seg: Seq<char>| tag_or_invalid(spec_trim(seg));
    let n = input.unicode_len();
    if n == 0 {
        let mut r: Vec<TemperatureRange> = Vec::new();
        r.push(TemperatureRange::Ambient);
        proof {
            assert(r@ =~= seq![TemperatureRange::Ambient]);
        }
        return r;
    }
    let mut result: Vec<TemperatureRange> = Vec::new();
    let mut start: usize = 0;
    let mut i: usize = 0;
    while i < n
        invariant
            0 <= start as int <= i as int <= n as int,
            n == input@.len(),
            n > 0,
            split_from(input@, 0, 0).map_values(f) =~= result@ + split_from(
                input@,
                start as int,
                i as int,
            ).map_values(f),
            f == (|seg: Seq<char>| tag_or_invalid(spec_trim(seg))),
        decreases n - i,
    {
        if input.get_char(i) == ',' {
            let seg = input.substring_char(start, i);
            let trimmed = trim_str(seg);
            let tag = match TemperatureRange::from_str(trimmed) {
                Ok(t) => t,
                Err(_) => TemperatureRange::Invalid,
            };
            proof {
                assert(seg@ == input@.subrange(start as int, i as int));
                assert(split_from(input@, start as int, i as int) == seq![seg@] + split_from(
                    input@,
                    i as int + 1,
                    i as int + 1,
                ));
                assert((seq![seg@] + split_from(input@, i as int + 1, i as int + 1)).map_values(f)
                    =~= seq![f(seg@)] + split_from(input@, i as int + 1, i as int + 1).map_values(
                    f,
                ));
                assert(tag == f(seg@));
            }
            result.push(tag);
            start = i + 1;
        }
        i = i + 1;
    }
    let seg = input.substring_char(start, n);
    let trimmed = trim_str(seg);
    let tag = match TemperatureRange::from_str(trimmed) {
        Ok(t) => t,
        Err(_) => TemperatureRange::Invalid,
    };
    proof {
        assert(split_from(input@, start as int, n as int) == seq![
            input@.subrange(start as int, n as int),
        ]);
        assert(seq![input@.subrange(start as int, n as int)].map_values(f) =~= seq![f(seg@)]);
        assert(tag == f(seg@));
    }
    result.push(tag);
    proof {
        assert(result@ =~= spec_extract_temp_ranges(input@));
    }
    result
}

// ---------------------------------------------------------------------------
// Numeric coercion of loosely typed cells.
// ---------------------------------------------------------------------------
/// Error type for `any_value_to_numeric`: the cell kind cannot carry a
/// number, the text does not parse, or the numeric rendering does not parse.
#[derive(Debug)]
pub enum AnyValueToNumericParseError {
    InvalidType(String),
    StringParseError(String),
    ParseError(String),
}

impl AnyValueToNumericParseError {
    /// The displayable description of this error, as a sequence.
    pub open spec fn message_view(&self) -> Seq<char> {
        match self {
            AnyValueToNumericParseError::InvalidType(v) => "Value can not parsed to numeric: "@
                + v@,
            AnyValueToNumericParseError::StringParseError(v) => "Error parsing string to numeric: "@
                + v@,
            AnyValueToNumericParseError::ParseError(v) => "Parse error: "@ + v@,
        }
    }

    /// The displayable description of this error.
    pub fn message(&self) -> (r: String)
        ensures
            r@ == self.message_view(),
    {
        match self {
            AnyValueToNumericParseError::InvalidType(v) => {
                let mut r = String::from_str("Value can not parsed to numeric: ");
                r.append(v.as_str());
                r
            },
            AnyValueToNumericParseError::StringParseError(v) => {
                let mut r = String::from_str("Error parsing string to numeric: ");
                r.append(v.as_str());
                r
            },
            AnyValueToNumericParseError::ParseError(v) => {
                let mut r = String::from_str("Parse error: ");
                r.append(v.as_str());
                r
            },
        }
    }
}

pub open spec fn clamp_i32(v: int) -> int {
    if v < -0x80000000 {
        -0x80000000
    } else if v > 0x7FFFFFFF {
        0x7FFFFFFF
    } else {
        v
    }
}

/// The 32-bit integer a decimal rendering coerces to: an optional sign, an
/// integer part, an optional fraction part (at least one digit overall), with
/// the fraction truncated toward zero and the value clamped to the i32 range.
pub open spec fn spec_numeric_text_i32(s: Seq<char>) -> Option<int> {
    let n = s.len() as int;
    let i0: int = if n > 0 && (s[0] == '+' || s[0] == '-') {
        1
    } else {
        0
    };
    let neg = n > 0 && s[0] == '-';
    let e1 = spec_digits_end(s, i0, n);
    let v = spec_num_val(s, i0, e1);
    let signed = if neg {
        -v
    } else {
        v
    };
    if e1 == n && e1 > i0 {
        Some(clamp_i32(signed))
    } else if e1 < n && s[e1] == '.' {
        let e2 = spec_digits_end(s, e1 + 1, n);
        if e2 == n && (e1 > i0 || e2 > e1 + 1) {
            Some(clamp_i32(signed))
        } else {
            None
        }
    } else {
        None
    }
}

fn is_digit(c: char) -> (r: bool)
    ensures
        r == is_digit_char(c),
{
    let u = c as u32;
    48 <= u && u <= 57
}

/// Reads the digit run starting at `i0`, returning its end and the run's
/// value clamped into a word: the second component equals the run's value
/// whenever that value is at most `0x80000000`, and is `0x100000000` (a
/// marker beyond the i32 range) otherwise.
fn scan_digits_clamped(s: &str, i0: usize, n: usize) -> (r: (usize, u64))
    requires
        n == s@.len(),
        i0 <= n,
    ensures
        r.0 == spec_digits_end(s@, i0 as int, n as int),
        i0 <= r.0 <= n,
        spec_num_val(s@, i0 as int, r.0 as int) <= 0x80000000 ==> r.1 == spec_num_val(
            s@,
            i0 as int,
            r.0 as int,
        ),
        spec_num_val(s@, i0 as int, r.0 as int) > 0x80000000 ==> r.1 == 0x100000000u64,
{
    let mut j = i0;
    let mut acc: u64 = 0;
    while j < n && is_digit(s.get_char(j))
        invariant
            i0 <= j <= n,
            n == s@.len(),
            spec_digits_end(s@, i0 as int, n as int) == spec_digits_end(
                s@,
                j as int,
                n as int - (j - i0),
            ),
            spec_num_val(s@, i0 as int, j as int) <= 0x80000000 ==> acc == spec_num_val(
                s@,
                i0 as int,
                j as int,
            ),
            spec_num_val(s@, i0 as int, j as int) > 0x80000000 ==> acc == 0x100000000u64,
            spec_num_val(s@, i0 as int, j as int) >= 0,
            forall|k: int| i0 <= k < j ==> is_digit_char(s@[k]),
        decreases n - j,
    {
        let c = s.get_char(j);
        let d = (c as u32 - 48) as u64;
        proof {
            assert(d == digit_val(s@[j as int]));
            assert(spec_num_val(s@, i0 as int, j as int + 1) == spec_num_val(
                s@,
                i0 as int,
                j as int,
            ) * 10 + d);
        }
        if acc <= 0x80000000 {
            acc = acc * 10 + d;
            if acc > 0x80000000 {
                acc = 0x100000000;
            }
        }
        j = j + 1;
    }
    proof {
        if j < n {
            assert(!is_digit_char(s@[j as int]));
        }
        assert(spec_digits_end(s@, j as int, n as int - (j - i0)) == j);
    }
    (j, acc)
}

/// Coerces a decimal rendering to a 32-bit integer, truncating the fraction
/// toward zero and clamping to the i32 range; `None` exactly on text outside
/// the numeric shape.
pub fn numeric_text_to_i32(s: &str) -> (r: Option<i32>)
    ensures
        r is Some <==> spec_numeric_text_i32(s@) is Some,
        r is Some ==> r.unwrap() as int == spec_numeric_text_i32(s@).unwrap(),
{
    let n = s.unicode_len();
    let (i0, neg): (usize, bool) = if n > 0 && (s.get_char(0) == '+' || s.get_char(0) == '-') {
        (1, s.get_char(0) == '-')
    } else {
        (0, false)
    };
    let (e1, acc) = scan_digits_clamped(s, i0, n);
    let has_int = e1 > i0;
    if e1 == n {
        if has_int {
            Some(clamped_result(neg, acc, Ghost(spec_num_val(s@, i0 as int, e1 as int))))
        } else {
            None
        }
    } else if s.get_char(e1) == '.' {
        let mut k = e1 + 1;
        while k < n && is_digit(s.get_char(k))
            invariant
                e1 + 1 <= k <= n,
                n == s@.len(),
                spec_digits_end(s@, e1 as int + 1, n as int) == spec_digits_end(
                    s@,
                    k as int,
                    n as int - (k - e1 - 1),
                ),
            decreases n - k,
        {
            k = k + 1;
        }
        proof {
            if k < n {
                assert(!is_digit_char(s@[k as int]));
            }
            assert(spec_digits_end(s@, k as int, n as int - (k - e1 - 1)) == k);
        }
        if k == n && (has_int || k > e1 + 1) {
            Some(clamped_result(neg, acc, Ghost(spec_num_val(s@, i0 as int, e1 as int))))
        } else {
            None
        }
    } else {
        None
    }
}

/// Applies the sign and the i32 clamp to a scanned digit value.
fn clamped_result(neg: bool, acc: u64, Ghost(v): Ghost<int>) -> (r: i32)
    requires
        v >= 0,
        v <= 0x80000000 ==> acc == v,
        v > 0x80000000 ==> acc == 0x100000000u64,
    ensures
        r as int == clamp_i32(
            if neg {
                -v
            } else {
                v
            },
        ),
{
    if neg {
        if acc >= 0x80000000 {
            i32::MIN
        } else {
            -(acc as i32)
        }
    } else {
        if acc >= 0x80000000 {
            i32::MAX
        } else {
            acc as i32
        }
    }
}

/// The integer a generic value coerces to: text and numeric renderings parse
/// as decimals, integers clamp into range; `None` for the other kinds.
pub open spec fn spec_i32_of_value(v: ValueV) -> Option<int> {
    match v {
        ValueV::Text(s) => spec_numeric_text_i32(s),
        ValueV::Number(s) => spec_numeric_text_i32(s),
        ValueV::Int(i) => Some(clamp_i32(i as int)),
        ValueV::Bool(_) => None,
        ValueV::Null => None,
    }
}

/// Convert a generic value to a 32-bit integer: numeric kinds coerce
/// directly, text via a numeric parse; the error names the offending cell in
/// its display form.
pub fn any_value_to_numeric(value: &Value) -> (r: Result<i32, AnyValueToNumericParseError>)
    ensures
        r is Ok <==> spec_i32_of_value(value@) is Some,
        r is Ok ==> r.unwrap() as int == spec_i32_of_value(value@).unwrap(),
        value@ matches ValueV::Text(s) ==> (spec_numeric_text_i32(s) is None ==> (r matches Err(
            AnyValueToNumericParseError::StringParseError(m),
        ) && m@ == s)),
        value@ matches ValueV::Number(s) ==> (spec_numeric_text_i32(s) is None ==> (r matches Err(
            AnyValueToNumericParseError::ParseError(m),
        ) && m@ == s)),
        (value@ is Bool || value@ is Null) ==> (r matches Err(
            AnyValueToNumericParseError::InvalidType(m),
        ) && m@ == string_of_value(value@)),
{
    match value {
        Value::Text(s) => match numeric_text_to_i32(s.as_str()) {
            Some(i) => Ok(i),
            None => Err(AnyValueToNumericParseError::StringParseError(s.clone())),
        },
        Value::Number(s) => match numeric_text_to_i32(s.as_str()) {
            Some(i) => Ok(i),
            None => Err(AnyValueToNumericParseError::ParseError(s.clone())),
        },
        Value::Int(i) => {
            if *i > 0x7FFFFFFFi64 {
                Ok(i32::MAX)
            } else if *i < -0x80000000i64 {
                Ok(i32::MIN)
            } else {
                Ok(*i as i32)
            }
        },
        Value::Bool(_) => Err(
            AnyValueToNumericParseError::InvalidType(crate::cell::value_to_string(value)),
        ),
        Value::Null => Err(
            AnyValueToNumericParseError::InvalidType(crate::cell::value_to_string(value)),
        ),
    }
}

// ---------------------------------------------------------------------------
// Date coercion.
// ---------------------------------------------------------------------------
/// Error type for `any_value_to_naive_date_time`: the cell is not text, or
/// the text does not match the date template.
#[derive(Debug)]
pub enum AnyValueToNaiveDateTimeParseError {
    InvalidType(String),
    ParseError(String),
}

impl AnyValueToNaiveDateTimeParseError {
    /// The displayable description of this error, as a sequence.
    pub open spec fn message_view(&self) -> Seq<char> {
        match self {
            AnyValueToNaiveDateTimeParseError::InvalidType(
                v,
            ) => "Value can not parsed to NaiveDateTime: "@ + v@,
            AnyValueToNaiveDateTimeParseError::ParseError(
                v,
            ) => "Error parsing string to NaiveDateTime: "@ + v@,
        }
    }

    /// The displayable description of this error.
    pub fn message(&self) -> (r: String)
        ensures
            r@ == self.message_view(),
    {
        match self {
            AnyValueToNaiveDateTimeParseError::InvalidType(v) => {
                let mut r = String::from_str("Value can not parsed to NaiveDateTime: ");
                r.append(v.as_str());
                r
            },
            AnyValueToNaiveDateTimeParseError::ParseError(v) => {
                let mut r = String::from_str("Error parsing string to NaiveDateTime: ");
                r.append(v.as_str());
                r
            },
        }
    }
}

/// Convert a generic value to a date-time; only text cells matching the
/// fixed template are accepted.
pub fn any_value_to_naive_date_time(value: &Value) -> (r: Result<
    DateTime,
    AnyValueToNaiveDateTimeParseError,
>)
    ensures
        r is Ok <==> (value@ matches ValueV::Text(s) && spec_parse_datetime(s) is Some),
        value@ matches ValueV::Text(s) ==> (spec_parse_datetime(s) is Some ==> r == Ok::<
            DateTime,
            AnyValueToNaiveDateTimeParseError,
        >(spec_parse_datetime(s).unwrap())),
        value@ matches ValueV::Text(s) ==> (spec_parse_datetime(s) is None ==> (r matches Err(
            AnyValueToNaiveDateTimeParseError::ParseError(m),
        ) && m@ == s)),
        !(value@ is Text) ==> (r matches Err(
            AnyValueToNaiveDateTimeParseError::InvalidType(m),
        ) && m@ == string_of_value(value@)),
        r matches Ok(d) ==> d.wf(),
{
    match value {
        Value::Text(s) => match crate::dates::parse_datetime(s.as_str()) {
            Some(d) => Ok(d),
            None => Err(AnyValueToNaiveDateTimeParseError::ParseError(s.clone())),
        },
        _ => Err(
            AnyValueToNaiveDateTimeParseError::InvalidType(crate::cell::value_to_string(value)),
        ),
    }
}

/// The date a cell yields under the lenient policy: parseable text gives its
/// instant, anything else the epoch sentinel.
pub open spec fn spec_date_of_value(v: ValueV) -> DateTime {
    match v {
        ValueV::Text(s) => match spec_parse_datetime(s) {
            Some(d) => d,
            None => (DateTime { secs: 0 }),
        },
        _ => (DateTime { secs: 0 }),
    }
}

/// The temperature tags a cell yields: free text is split and matched,
/// anything else is Ambient.
pub open spec fn spec_temps_of_value(v: ValueV) -> Seq<TemperatureRange> {
    match v {
        ValueV::Text(s) => spec_extract_temp_ranges(s),
        _ => seq![TemperatureRange::Ambient],
    }
}

// ---------------------------------------------------------------------------
// Per-column extractors.
// ---------------------------------------------------------------------------
/// Whether every cell of a column coerces to a 32-bit integer.
pub open spec fn i32_col_ok(col: Seq<ValueV>) -> bool {
    forall|k: int| 0 <= k < col.len() ==> spec_i32_of_value(#[trigger] col[k]) is Some
}

/// First index at or after `k` whose cell does not coerce, or the length.
pub open spec fn first_bad_i32(col: Seq<ValueV>, k: int) -> int
    decreases col.len() - k,
{
    if !(0 <= k < col.len()) {
        col.len() as int
    } else if spec_i32_of_value(col[k]) is None {
        k
    } else {
        first_bad_i32(col, k + 1)
    }
}

proof fn lemma_first_bad_i32(col: Seq<ValueV>, j: int, k: int)
    requires
        0 <= j <= k < col.len(),
        forall|q: int| j <= q < k ==> spec_i32_of_value(#[trigger] col[q]) is Some,
        spec_i32_of_value(col[k]) is None,
    ensures
        first_bad_i32(col, j) == k,
    decreases k - j,
{
    if j < k {
        lemma_first_bad_i32(col, j + 1, k);
    }
}

/// The coerced value of a cell stays in the 32-bit range.
proof fn lemma_i32_of_value_range(v: ValueV)
    requires
        spec_i32_of_value(v) is Some,
    ensures
        -0x80000000 <= spec_i32_of_value(v).unwrap() <= 0x7FFFFFFF,
{
}

/// Extract a column as strings: text passes through verbatim, every other
/// cell is stringified via its generic display form. Fails only on a missing
/// column.
pub fn extract_column_as_string(df: &RawTable, column_name: &str) -> (r: Result<
    Vec<String>,
    ParseFilesError,
>)
    ensures
        r is Ok <==> has_col(df@, column_name@),
        r matches Ok(v) ==> ({
            let col = col_values(df@, column_name@);
            &&& v.deep_view().len() == col.len()
            &&& forall|k: int|
                0 <= k < col.len() ==> #[trigger] v.deep_view()[k] == string_of_value(col[k])
        }),
        !has_col(df@, column_name@) ==> (r matches Err(ParseFilesError::TableError(m)) && m@
            == "column not found: "@ + column_name@),
{
    let ci = match df.find_column(column_name) {
        Some(ci) => ci,
        None => {
            let mut m = String::from_str("column not found: ");
            m.append(column_name);
            return Err(ParseFilesError::TableError(m));
        },
    };
    proof {
        assert(has_col(df@, column_name@));
        crate::table::lemma_col_index_from_bounds(df@, column_name@, 0);
        assert(df@[ci as int].values == df.columns@[ci as int].values.deep_view());
    }
    let src = &df.columns[ci].values;
    let n = src.len();
    let mut v: Vec<String> = Vec::new();
    let mut k: usize = 0;
    while k < n
        invariant
            k <= n,
            n == src@.len(),
            src.deep_view() == col_values(df@, column_name@),
            v.deep_view().len() == k as int,
            forall|q: int|
                0 <= q < k ==> #[trigger] v.deep_view()[q] == string_of_value(
                    col_values(df@, column_name@)[q],
                ),
        decreases n - k,
    {
        let s = crate::cell::value_to_string(&src[k]);
        let ghost prev = v.deep_view();
        v.push(s);
        proof {
            assert(v.deep_view() =~= prev.push(string_of_value(src.deep_view()[k as int])));
        }
        k = k + 1;
    }
    Ok(v)
}

/// Extract a column as temperature-range lists: text cells are split and
/// matched, every other cell yields Ambient. Fails only on a missing column.
pub fn extract_column_as_temperature_ranges(df: &RawTable, column_name: &str) -> (r: Result<
    Vec<Vec<TemperatureRange>>,
    ParseFilesError,
>)
    ensures
        r is Ok <==> has_col(df@, column_name@),
        r matches Ok(v) ==> ({
            let col = col_values(df@, column_name@);
            &&& v.deep_view().len() == col.len()
            &&& forall|k: int|
                0 <= k < col.len() ==> #[trigger] v.deep_view()[k] == spec_temps_of_value(col[k])
        }),
        !has_col(df@, column_name@) ==> (r matches Err(ParseFilesError::TableError(m)) && m@
            == "column not found: "@ + column_name@),
{
    let ci = match df.find_column(column_name) {
        Some(ci) => ci,
        None => {
            let mut m = String::from_str("column not found: ");
            m.append(column_name);
            return Err(ParseFilesError::TableError(m));
        },
    };
    proof {
        assert(has_col(df@, column_name@));
        crate::table::lemma_col_index_from_bounds(df@, column_name@, 0);
        assert(df@[ci as int].values == df.columns@[ci as int].values.deep_view());
    }
    let src = &df.columns[ci].values;
    let n = src.len();
    let mut v: Vec<Vec<TemperatureRange>> = Vec::new();
    let mut k: usize = 0;
    while k < n
        invariant
            k <= n,
            n == src@.len(),
            src.deep_view() == col_values(df@, column_name@),
            v.deep_view().len() == k as int,
            forall|q: int|
                0 <= q < k ==> #[trigger] v.deep_view()[q] == spec_temps_of_value(
                    col_values(df@, column_name@)[q],
                ),
        decreases n - k,
    {
        let ranges = match &src[k] {
            Value::Text(s) => extract_temperature_ranges(s.as_str()),
            _ => {
                let mut one: Vec<TemperatureRange> = Vec::new();
                one.push(TemperatureRange::Ambient);
                proof {
                    assert(one@ =~= seq![TemperatureRange::Ambient]);
                }
                one
            },
        };
        proof {
            assert(ranges.deep_view() =~= ranges@);
            assert(ranges@ == spec_temps_of_value(src.deep_view()[k as int]));
        }
        let ghost prev = v.deep_view();
        v.push(ranges);
        proof {
            assert(v.deep_view() =~= prev.push(spec_temps_of_value(src.deep_view()[k as int])));
        }
        k = k + 1;
    }
    Ok(v)
}

/// Extract a column as 32-bit integers via the numeric coercion; the whole
/// extraction fails on the first cell that does not coerce, or on a missing
/// column.
pub fn extract_column_as_i32(df: &RawTable, column_name: &str) -> (r: Result<
    Vec<i32>,
    ParseFilesError,
>)
    ensures
        r is Ok <==> (has_col(df@, column_name@) && i32_col_ok(col_values(df@, column_name@))),
        r matches Ok(v) ==> ({
            let col = col_values(df@, column_name@);
            &&& v@.len() == col.len()
            &&& forall|k: int|
                0 <= k < col.len() ==> #[trigger] v@[k] as int == spec_i32_of_value(col[k]).unwrap()
        }),
        !has_col(df@, column_name@) ==> (r matches Err(ParseFilesError::TableError(m)) && m@
            == "column not found: "@ + column_name@),
        has_col(df@, column_name@) && !i32_col_ok(col_values(df@, column_name@)) ==> ({
            let col = col_values(df@, column_name@);
            let b = first_bad_i32(col, 0);
            &&& (r matches Err(e) && e is AnyValueToNumericParse)
            &&& (col[b] matches ValueV::Text(s) ==> (r matches Err(
                ParseFilesError::AnyValueToNumericParse(
                    AnyValueToNumericParseError::StringParseError(m),
                ),
            ) && m@ == s))
            &&& (col[b] matches ValueV::Number(s) ==> (r matches Err(
                ParseFilesError::AnyValueToNumericParse(AnyValueToNumericParseError::ParseError(m)),
            ) && m@ == s))
            &&& ((col[b] is Bool || col[b] is Null) ==> (r matches Err(
                ParseFilesError::AnyValueToNumericParse(
                    AnyValueToNumericParseError::InvalidType(m),
                ),
            ) && m@ == string_of_value(col[b])))
        }),
{
    let ci = match df.find_column(column_name) {
        Some(ci) => ci,
        None => {
            let mut m = String::from_str("column not found: ");
            m.append(column_name);
            return Err(ParseFilesError::TableError(m));
        },
    };
    proof {
        assert(has_col(df@, column_name@));
        crate::table::lemma_col_index_from_bounds(df@, column_name@, 0);
        assert(df@[ci as int].values == df.columns@[ci as int].values.deep_view());
    }
    let src = &df.columns[ci].values;
    let n = src.len();
    let mut v: Vec<i32> = Vec::new();
    let mut k: usize = 0;
    while k < n
        invariant
            k <= n,
            n == src@.len(),
            has_col(df@, column_name@),
            src.deep_view() == col_values(df@, column_name@),
            v@.len() == k as int,
            forall|q: int|
                0 <= q < k ==> spec_i32_of_value(#[trigger] src.deep_view()[q]) is Some,
            forall|q: int|
                0 <= q < k ==> #[trigger] v@[q] as int == spec_i32_of_value(
                    src.deep_view()[q],
                ).unwrap(),
        decreases n - k,
    {
        match any_value_to_numeric(&src[k]) {
            Ok(i) => {
                v.push(i);
            },
            Err(e) => {
                proof {
                    assert(spec_i32_of_value(col_values(df@, column_name@)[k as int]) is None);
                    lemma_first_bad_i32(src.deep_view(), 0, k as int);
                }
                return Err(ParseFilesError::AnyValueToNumericParse(e));
            },
        }
        k = k + 1;
    }
    Ok(v)
}

/// Extract a column as date-times under the lenient policy: parseable text
/// cells give their instant, every other cell the epoch sentinel. Fails only
/// on a missing column.
fn extract_column_as_dates(df: &RawTable, column_name: &str) -> (r: Result<
    Vec<DateTime>,
    ParseFilesError,
>)
    ensures
        r is Ok <==> has_col(df@, column_name@),
        r matches Ok(v) ==> ({
            let col = col_values(df@, column_name@);
            &&& v@.len() == col.len()
            &&& forall|k: int|
                0 <= k < col.len() ==> #[trigger] v@[k] == spec_date_of_value(col[k]) && v@[k].wf()
        }),
        !has_col(df@, column_name@) ==> (r matches Err(ParseFilesError::TableError(m)) && m@
            == "column not found: "@ + column_name@),
{
    let ci = match df.find_column(column_name) {
        Some(ci) => ci,
        None => {
            let mut m = String::from_str("column not found: ");
            m.append(column_name);
            return Err(ParseFilesError::TableError(m));
        },
    };
    proof {
        assert(has_col(df@, column_name@));
        crate::table::lemma_col_index_from_bounds(df@, column_name@, 0);
        assert(df@[ci as int].values == df.columns@[ci as int].values.deep_view());
    }
    let src = &df.columns[ci].values;
    let n = src.len();
    let mut v: Vec<DateTime> = Vec::new();
    let mut k: usize = 0;
    while k < n
        invariant
            k <= n,
            n == src@.len(),
            src.deep_view() == col_values(df@, column_name@),
            v@.len() == k as int,
            forall|q: int|
                0 <= q < k ==> #[trigger] v@[q] == spec_date_of_value(src.deep_view()[q])
                    && v@[q].wf(),
        decreases n - k,
    {
        let d = match any_value_to_naive_date_time(&src[k]) {
            Ok(d) => d,
            Err(_) => DateTime::epoch(),
        };
        v.push(d);
        k = k + 1;
    }
    Ok(v)
}

/// An exact copy of a temperature-range list.
fn clone_temperature_ranges(v: &Vec<TemperatureRange>) -> (r: Vec<TemperatureRange>)
    ensures
        r@ == v@,
{
    let n = v.len();
    let mut r: Vec<TemperatureRange> = Vec::new();
    let mut k: usize = 0;
    while k < n
        invariant
            k <= n,
            n == v@.len(),
            r@ =~= v@.take(k as int),
        decreases n - k,
    {
        r.push(v[k]);
        k = k + 1;
    }
    proof {
        assert(r@ =~= v@);
    }
    r
}

// ---------------------------------------------------------------------------
// The job record and its assembly.
// ---------------------------------------------------------------------------
/// A single normalized logistics job record.
#[derive(Debug)]
pub struct JobRow {
    pub mode: DispoMode,
    pub job_number: String,
    pub hawb_number: String,
    pub temperature_ranges: Vec<TemperatureRange>,
    pub quantities: i32,
    pub address: String,
    pub postal_code: String,
    pub city: String,
    pub country: String,
    pub equipment: String,
    /// One of 0, 15, 30, 60, 120.
    pub tolerance: i32,
    pub early_date: DateTime,
    pub late_date: DateTime,
    /// The middle between the early and the late date.
    pub calculated_date: DateTime,
    pub contact_name: String,
}

/// The mathematical shape of a job record.
#[verifier::ext_equal]
pub ghost struct JobRowV {
    pub mode: DispoMode,
    pub job_number: Seq<char>,
    pub hawb_number: Seq<char>,
    pub temperature_ranges: Seq<TemperatureRange>,
    pub quantities: i32,
    pub address: Seq<char>,
    pub postal_code: Seq<char>,
    pub city: Seq<char>,
    pub country: Seq<char>,
    pub equipment: Seq<char>,
    pub tolerance: i32,
    pub early_date: DateTime,
    pub late_date: DateTime,
    pub calculated_date: DateTime,
    pub contact_name: Seq<char>,
}

impl View for JobRow {
    type V = JobRowV;

    open spec fn view(&self) -> JobRowV {
        JobRowV {
            mode: self.mode,
            job_number: self.job_number@,
            hawb_number: self.hawb_number@,
            temperature_ranges: self.temperature_ranges@,
            quantities: self.quantities,
            address: self.address@,
            postal_code: self.postal_code@,
            city: self.city@,
            country: self.country@,
            equipment: self.equipment@,
            tolerance: self.tolerance,
            early_date: self.early_date,
            late_date: self.late_date,
            calculated_date: self.calculated_date,
            contact_name: self.contact_name@,
        }
    }
}

impl DeepView for JobRow {
    type V = JobRowV;

    open spec fn deep_view(&self) -> JobRowV {
        self.view()
    }
}

/// The record row `k` of a joined table assembles to under `mode`.
pub open spec fn spec_job_row_at(t: Seq<crate::table::ColumnV>, mode: DispoMode, k: int) -> JobRowV {
    let e = spec_date_of_value(col_values(t, cm_target_early(mode))[k]);
    let l = spec_date_of_value(col_values(t, cm_target_late(mode))[k]);
    JobRowV {
        mode,
        job_number: string_of_value(col_values(t, cm_job_number())[k]),
        hawb_number: string_of_value(col_values(t, cm_hawb())[k]),
        temperature_ranges: spec_temps_of_value(col_values(t, cm_temperature_range())[k]),
        quantities: spec_i32_of_value(col_values(t, cm_quantity())[k]).unwrap() as i32,
        address: string_of_value(col_values(t, cm_address(mode))[k]),
        postal_code: string_of_value(col_values(t, cm_postal_code(mode))[k]),
        city: string_of_value(col_values(t, cm_city(mode))[k]),
        country: string_of_value(col_values(t, cm_country(mode))[k]),
        equipment: string_of_value(col_values(t, cm_equipment_codes())[k]),
        tolerance: tolerance_secs(e.secs as int, l.secs as int) as i32,
        early_date: e,
        late_date: l,
        calculated_date: (DateTime { secs: midpoint_secs(e.secs as int, l.secs as int) as i64 }),
        contact_name: string_of_value(col_values(t, cm_name(mode))[k]),
    }
}

/// Whether the joined table carries every column the assembly reads.
pub open spec fn from_table_cols_ok(t: Seq<crate::table::ColumnV>, mode: DispoMode) -> bool {
    &&& has_col(t, cm_job_number())
    &&& has_col(t, cm_hawb())
    &&& has_col(t, cm_temperature_range())
    &&& has_col(t, cm_address(mode))
    &&& has_col(t, cm_quantity())
    &&& has_col(t, cm_postal_code(mode))
    &&& has_col(t, cm_city(mode))
    &&& has_col(t, cm_country(mode))
    &&& has_col(t, cm_equipment_codes())
    &&& has_col(t, cm_name(mode))
    &&& has_col(t, cm_target_early(mode))
    &&& has_col(t, cm_target_late(mode))
}

impl JobRow {
    /// Create a new JobRow from its fifteen fields.
    pub fn new(
        mode: DispoMode,
        job_number: String,
        hawb_number: String,
        temperature_range: Vec<TemperatureRange>,
        amount: i32,
        address: String,
        postal_code: String,
        city: String,
        country: String,
        equipment: String,
        tolerance: i32,
        early_date: DateTime,
        late_date: DateTime,
        calculated_date: DateTime,
        contact_name: String,
    ) -> (r: JobRow)
        ensures
            r.mode == mode,
            r.job_number == job_number,
            r.hawb_number == hawb_number,
            r.temperature_ranges == temperature_range,
            r.quantities == amount,
            r.address == address,
            r.postal_code == postal_code,
            r.city == city,
            r.country == country,
            r.equipment == equipment,
            r.tolerance == tolerance,
            r.early_date == early_date,
            r.late_date == late_date,
            r.calculated_date == calculated_date,
            r.contact_name == contact_name,
    {
        JobRow {
            mode,
            job_number,
            hawb_number,
            temperature_ranges: temperature_range,
            quantities: amount,
            address,
            postal_code,
            city,
            country,
            equipment,
            tolerance,
            early_date,
            late_date,
            calculated_date,
            contact_name,
        }
    }

    /// Assemble one JobRow per row of a joined table: every extracted column
    /// vector is indexed at the row, the calculated date is the midpoint of
    /// the target window, and the tolerance its bucketed half-width. Fails
    /// when a needed column is missing or a quantity cell does not coerce.
    pub fn from_table(table: &RawTable, mode: DispoMode) -> (r: Result<Vec<JobRow>, ParseFilesError>)
        requires
            table.wf(),
        ensures
            r is Ok <==> (from_table_cols_ok(table@, mode) && i32_col_ok(
                col_values(table@, cm_quantity()),
            )),
            r matches Ok(rows) ==> ({
                &&& rows.deep_view().len() == table_height(table@)
                &&& forall|k: int|
                    0 <= k < table_height(table@) ==> #[trigger] rows.deep_view()[k]
                        == spec_job_row_at(table@, mode, k)
            }),
            r matches Err(e) ==> (e is TableError || e is AnyValueToNumericParse),
            r matches Err(e) ==> ({
                let t2 = table@;
                &&& (!has_col(t2, cm_job_number()) ==> (e matches ParseFilesError::TableError(m) && m@
                    == "column not found: "@ + cm_job_number()))
                &&& (has_col(t2, cm_job_number()) && !has_col(t2, cm_hawb()) ==> (e matches ParseFilesError::TableError(m) && m@
                    == "column not found: "@ + cm_hawb()))
                &&& (has_col(t2, cm_job_number()) && has_col(t2, cm_hawb()) && !has_col(t2, cm_temperature_range()) ==> (e matches ParseFilesError::TableError(m) && m@
                    == "column not found: "@ + cm_temperature_range()))
                &&& (has_col(t2, cm_job_number()) && has_col(t2, cm_hawb()) && has_col(t2, cm_temperature_range()) && !has_col(t2, cm_address(mode)) ==> (e matches ParseFilesError::TableError(m) && m@
                    == "column not found: "@ + cm_address(mode)))
                &&& (has_col(t2, cm_job_number()) && has_col(t2, cm_hawb()) && has_col(t2, cm_temperature_range()) && has_col(t2, cm_address(mode)) && !has_col(t2, cm_quantity()) ==> (e matches ParseFilesError::TableError(m) && m@
                    == "column not found: "@ + cm_quantity()))
                &&& (has_col(t2, cm_job_number()) && has_col(t2, cm_hawb()) && has_col(t2, cm_temperature_range()) && has_col(t2, cm_address(mode)) && has_col(t2, cm_quantity()) && !i32_col_ok(col_values(t2, cm_quantity())) ==> ({
                    let col = col_values(t2, cm_quantity());
                    let b = first_bad_i32(col, 0);
                    &&& e is AnyValueToNumericParse
                    &&& (col[b] matches ValueV::Text(s) ==> (e matches ParseFilesError::AnyValueToNumericParse(
                        AnyValueToNumericParseError::StringParseError(m),
                    ) && m@ == s))
                    &&& (col[b] matches ValueV::Number(s) ==> (e matches ParseFilesError::AnyValueToNumericParse(
                        AnyValueToNumericParseError::ParseError(m),
                    ) && m@ == s))
                    &&& ((col[b] is Bool || col[b] is Null) ==> (e matches ParseFilesError::AnyValueToNumericParse(
                        AnyValueToNumericParseError::InvalidType(m),
                    ) && m@ == string_of_value(col[b])))
                }))
                &&& (has_col(t2, cm_job_number()) && has_col(t2, cm_hawb()) && has_col(t2, cm_temperature_range()) && has_col(t2, cm_address(mode)) && has_col(t2, cm_quantity()) && i32_col_ok(col_values(t2, cm_quantity())) && !has_col(t2, cm_postal_code(mode)) ==> (e matches ParseFilesError::TableError(m) && m@
                    == "column not found: "@ + cm_postal_code(mode)))
                &&& (has_col(t2, cm_job_number()) && has_col(t2, cm_hawb()) && has_col(t2, cm_temperature_range()) && has_col(t2, cm_address(mode)) && has_col(t2, cm_quantity()) && i32_col_ok(col_values(t2, cm_quantity())) && has_col(t2, cm_postal_code(mode)) && !has_col(t2, cm_city(mode)) ==> (e matches ParseFilesError::TableError(m) && m@
                    == "column not found: "@ + cm_city(mode)))
                &&& (has_col(t2, cm_job_number()) && has_col(t2, cm_hawb()) && has_col(t2, cm_temperature_range()) && has_col(t2, cm_address(mode)) && has_col(t2, cm_quantity()) && i32_col_ok(col_values(t2, cm_quantity())) && has_col(t2, cm_postal_code(mode)) && has_col(t2, cm_city(mode)) && !has_col(t2, cm_country(mode)) ==> (e matches ParseFilesError::TableError(m) && m@
                    == "column not found: "@ + cm_country(mode)))
                &&& (has_col(t2, cm_job_number()) && has_col(t2, cm_hawb()) && has_col(t2, cm_temperature_range()) && has_col(t2, cm_address(mode)) && has_col(t2, cm_quantity()) && i32_col_ok(col_values(t2, cm_quantity())) && has_col(t2, cm_postal_code(mode)) && has_col(t2, cm_city(mode)) && has_col(t2, cm_country(mode)) && !has_col(t2, cm_equipment_codes()) ==> (e matches ParseFilesError::TableError(m) && m@
                    == "column not found: "@ + cm_equipment_codes()))
                &&& (has_col(t2, cm_job_number()) && has_col(t2, cm_hawb()) && has_col(t2, cm_temperature_range()) && has_col(t2, cm_address(mode)) && has_col(t2, cm_quantity()) && i32_col_ok(col_values(t2, cm_quantity())) && has_col(t2, cm_postal_code(mode)) && has_col(t2, cm_city(mode)) && has_col(t2, cm_country(mode)) && has_col(t2, cm_equipment_codes()) && !has_col(t2, cm_name(mode)) ==> (e matches ParseFilesError::TableError(m) && m@
                    == "column not found: "@ + cm_name(mode)))
                &&& (has_col(t2, cm_job_number()) && has_col(t2, cm_hawb()) && has_col(t2, cm_temperature_range()) && has_col(t2, cm_address(mode)) && has_col(t2, cm_quantity()) && i32_col_ok(col_values(t2, cm_quantity())) && has_col(t2, cm_postal_code(mode)) && has_col(t2, cm_city(mode)) && has_col(t2, cm_country(mode)) && has_col(t2, cm_equipment_codes()) && has_col(t2, cm_name(mode)) && !has_col(t2, cm_target_early(mode)) ==> (e matches ParseFilesError::TableError(m) && m@
                    == "column not found: "@ + cm_target_early(mode)))
                &&& (has_col(t2, cm_job_number()) && has_col(t2, cm_hawb()) && has_col(t2, cm_temperature_range()) && has_col(t2, cm_address(mode)) && has_col(t2, cm_quantity()) && i32_col_ok(col_values(t2, cm_quantity())) && has_col(t2, cm_postal_code(mode)) && has_col(t2, cm_city(mode)) && has_col(t2, cm_country(mode)) && has_col(t2, cm_equipment_codes()) && has_col(t2, cm_name(mode)) && has_col(t2, cm_target_early(mode)) && !has_col(t2, cm_target_late(mode)) ==> (e matches ParseFilesError::TableError(m) && m@
                    == "column not found: "@ + cm_target_late(mode)))
            }),
    {
        let column_mapping = ColumnMapping::new(mode);
        let ghost t = table@;
        let job_numbers = match extract_column_as_string(table, column_mapping.job_number) {
            Ok(v) => v,
            Err(e) => {
                return Err(e);
            },
        };
        let hawb_numbers = match extract_column_as_string(table, column_mapping.hawb) {
            Ok(v) => v,
            Err(e) => {
                return Err(e);
            },
        };
        let temperature_ranges = match extract_column_as_temperature_ranges(
            table,
            column_mapping.temperature_range,
        ) {
            Ok(v) => v,
            Err(e) => {
                return Err(e);
            },
        };
        let addresses = match extract_column_as_string(table, column_mapping.address) {
            Ok(v) => v,
            Err(e) => {
                return Err(e);
            },
        };
        let quantities = match extract_column_as_i32(table, column_mapping.quantity) {
            Ok(v) => v,
            Err(e) => {
                return Err(e);
            },
        };
        let postal_codes = match extract_column_as_string(table, column_mapping.postal_code) {
            Ok(v) => v,
            Err(e) => {
                return Err(e);
            },
        };
        let cities = match extract_column_as_string(table, column_mapping.city) {
            Ok(v) => v,
            Err(e) => {
                return Err(e);
            },
        };
        let countries = match extract_column_as_string(table, column_mapping.country) {
            Ok(v) => v,
            Err(e) => {
                return Err(e);
            },
        };
        let equipment = match extract_column_as_string(table, column_mapping.equipment_codes) {
            Ok(v) => v,
            Err(e) => {
                return Err(e);
            },
        };
        let contact_names = match extract_column_as_string(table, column_mapping.name) {
            Ok(v) => v,
            Err(e) => {
                return Err(e);
            },
        };
        let early_dates = match extract_column_as_dates(table, column_mapping.target_early) {
            Ok(v) => v,
            Err(e) => {
                return Err(e);
            },
        };
        let late_dates = match extract_column_as_dates(table, column_mapping.target_late) {
            Ok(v) => v,
            Err(e) => {
                return Err(e);
            },
        };
        let total_elements = table.height();
        proof {
            crate::table::lemma_col_index_from_bounds(t, cm_job_number(), 0);
            crate::table::lemma_col_index_from_bounds(t, cm_hawb(), 0);
            crate::table::lemma_col_index_from_bounds(t, cm_temperature_range(), 0);
            crate::table::lemma_col_index_from_bounds(t, cm_address(mode), 0);
            crate::table::lemma_col_index_from_bounds(t, cm_quantity(), 0);
            crate::table::lemma_col_index_from_bounds(t, cm_postal_code(mode), 0);
            crate::table::lemma_col_index_from_bounds(t, cm_city(mode), 0);
            crate::table::lemma_col_index_from_bounds(t, cm_country(mode), 0);
            crate::table::lemma_col_index_from_bounds(t, cm_equipment_codes(), 0);
            crate::table::lemma_col_index_from_bounds(t, cm_name(mode), 0);
            crate::table::lemma_col_index_from_bounds(t, cm_target_early(mode), 0);
            crate::table::lemma_col_index_from_bounds(t, cm_target_late(mode), 0);
            assert(col_values(t, cm_job_number()).len() == table_height(t));
            assert(col_values(t, cm_hawb()).len() == table_height(t));
            assert(col_values(t, cm_temperature_range()).len() == table_height(t));
            assert(col_values(t, cm_address(mode)).len() == table_height(t));
            assert(col_values(t, cm_quantity()).len() == table_height(t));
            assert(col_values(t, cm_postal_code(mode)).len() == table_height(t));
            assert(col_values(t, cm_city(mode)).len() == table_height(t));
            assert(col_values(t, cm_country(mode)).len() == table_height(t));
            assert(col_values(t, cm_equipment_codes()).len() == table_height(t));
            assert(col_values(t, cm_name(mode)).len() == table_height(t));
            assert(col_values(t, cm_target_early(mode)).len() == table_height(t));
            assert(col_values(t, cm_target_late(mode)).len() == table_height(t));
        }
        let mut result: Vec<JobRow> = Vec::new();
        let mut index: usize = 0;
        while index < total_elements
            invariant
                index <= total_elements,
                total_elements == table_height(t),
                i32_col_ok(col_values(t, cm_quantity())),
                col_values(t, cm_quantity()).len() == total_elements,
                job_numbers.deep_view().len() == total_elements,
                hawb_numbers.deep_view().len() == total_elements,
                temperature_ranges.deep_view().len() == total_elements,
                addresses.deep_view().len() == total_elements,
                quantities@.len() == total_elements,
                postal_codes.deep_view().len() == total_elements,
                cities.deep_view().len() == total_elements,
                countries.deep_view().len() == total_elements,
                equipment.deep_view().len() == total_elements,
                contact_names.deep_view().len() == total_elements,
                early_dates@.len() == total_elements,
                late_dates@.len() == total_elements,
                forall|k: int|
                    0 <= k < total_elements ==> #[trigger] job_numbers.deep_view()[k]
                        == string_of_value(col_values(t, cm_job_number())[k]),
                forall|k: int|
                    0 <= k < total_elements ==> #[trigger] hawb_numbers.deep_view()[k]
                        == string_of_value(col_values(t, cm_hawb())[k]),
                forall|k: int|
                    0 <= k < total_elements ==> #[trigger] temperature_ranges.deep_view()[k]
                        == spec_temps_of_value(col_values(t, cm_temperature_range())[k]),
                forall|k: int|
                    0 <= k < total_elements ==> #[trigger] addresses.deep_view()[k]
                        == string_of_value(col_values(t, cm_address(mode))[k]),
                forall|k: int|
                    0 <= k < total_elements ==> #[trigger] quantities@[k] as int
                        == spec_i32_of_value(col_values(t, cm_quantity())[k]).unwrap(),
                forall|k: int|
                    0 <= k < total_elements ==> #[trigger] postal_codes.deep_view()[k]
                        == string_of_value(col_values(t, cm_postal_code(mode))[k]),
                forall|k: int|
                    0 <= k < total_elements ==> #[trigger] cities.deep_view()[k]
                        == string_of_value(col_values(t, cm_city(mode))[k]),
                forall|k: int|
                    0 <= k < total_elements ==> #[trigger] countries.deep_view()[k]
                        == string_of_value(col_values(t, cm_country(mode))[k]),
                forall|k: int|
                    0 <= k < total_elements ==> #[trigger] equipment.deep_view()[k]
                        == string_of_value(col_values(t, cm_equipment_codes())[k]),
                forall|k: int|
                    0 <= k < total_elements ==> #[trigger] contact_names.deep_view()[k]
                        == string_of_value(col_values(t, cm_name(mode))[k]),
                forall|k: int|
                    0 <= k < total_elements ==> #[trigger] early_dates@[k] == spec_date_of_value(
                        col_values(t, cm_target_early(mode))[k],
                    ) && early_dates@[k].wf(),
                forall|k: int|
                    0 <= k < total_elements ==> #[trigger] late_dates@[k] == spec_date_of_value(
                        col_values(t, cm_target_late(mode))[k],
                    ) && late_dates@[k].wf(),
                result.deep_view().len() == index as int,
                forall|k: int|
                    0 <= k < index ==> #[trigger] result.deep_view()[k] == spec_job_row_at(
                        t,
                        mode,
                        k,
                    ),
            decreases total_elements - index,
        {
            let early = early_dates[index];
            let late = late_dates[index];
            let row = JobRow::new(
                mode,
                job_numbers[index].clone(),
                hawb_numbers[index].clone(),
                clone_temperature_ranges(&temperature_ranges[index]),
                quantities[index],
                addresses[index].clone(),
                postal_codes[index].clone(),
                cities[index].clone(),
                countries[index].clone(),
                equipment[index].clone(),
                crate::dates::calculate_tolerance(early, late),
                early,
                late,
                crate::dates::middle_between_dates(early, late),
                contact_names[index].clone(),
            );
            let ghost prev = result.deep_view();
            proof {
                assert(spec_i32_of_value(col_values(t, cm_quantity())[index as int]) is Some);
                lemma_i32_of_value_range(col_values(t, cm_quantity())[index as int]);
                let es = early.secs as int;
                let ls = late.secs as int;
                assert(row.tolerance as int == tolerance_secs(es, ls));
                assert(0 <= tolerance_secs(es, ls) <= 120);
                let gi = index as int;
                assert(job_numbers.deep_view()[gi] == job_numbers@[gi]@);
                assert(hawb_numbers.deep_view()[gi] == hawb_numbers@[gi]@);
                assert(temperature_ranges.deep_view()[gi] == temperature_ranges@[gi]@);
                assert(addresses.deep_view()[gi] == addresses@[gi]@);
                assert(postal_codes.deep_view()[gi] == postal_codes@[gi]@);
                assert(cities.deep_view()[gi] == cities@[gi]@);
                assert(countries.deep_view()[gi] == countries@[gi]@);
                assert(equipment.deep_view()[gi] == equipment@[gi]@);
                assert(contact_names.deep_view()[gi] == contact_names@[gi]@);
                assert(row@ =~= spec_job_row_at(t, mode, index as int));
            }
            result.push(row);
            proof {
                assert(result.deep_view() =~= prev.push(spec_job_row_at(t, mode, index as int)));
            }
            index = index + 1;
        }
        Ok(result)
    }
}

/// The display name of a tag, as a sequence.
pub open spec fn tag_display(t: TemperatureRange) -> Seq<char> {
    match t {
        TemperatureRange::DryIce => "Dry Ice"@,
        TemperatureRange::DryShipper => "Dry Shipper"@,
        TemperatureRange::Refrigerated => "Refrigerated"@,
        TemperatureRange::ControlledAmbient => "Controlled Ambient"@,
        TemperatureRange::Frozen => "Frozen"@,
        TemperatureRange::Ambient => "Ambient"@,
        TemperatureRange::NonSOP => "Non SOP"@,
        TemperatureRange::Invalid => "Invalid"@,
    }
}

/// The comma-joined display names of the tags from position `i` on.
pub open spec fn temps_display_from(s: Seq<TemperatureRange>, i: int) -> Seq<char>
    decreases s.len() - i,
{
    if !(0 <= i < s.len()) {
        Seq::empty()
    } else if i == 0 {
        tag_display(s[0]) + temps_display_from(s, 1)
    } else {
        ", "@ + tag_display(s[i]) + temps_display_from(s, i + 1)
    }
}

/// Joins the display names of the tags with a comma and a space.
fn temps_to_string(v: &Vec<TemperatureRange>) -> (r: String)
    ensures
        r@ == temps_display_from(v@, 0),
{
    let n = v.len();
    let mut r = String::new();
    let mut i: usize = 0;
    while i < n
        invariant
            i <= n,
            n == v@.len(),
            temps_display_from(v@, 0) =~= r@ + temps_display_from(v@, i as int),
        decreases n - i,
    {
        if i > 0 {
            r.append(", ");
        }
        let part = v[i].to_display_string();
        r.append(part.as_str());
        i = i + 1;
    }
    proof {
        assert(r@ =~= temps_display_from(v@, 0));
    }
    r
}

/// The display name of a mode, as a sequence.
pub open spec fn mode_display(m: DispoMode) -> Seq<char> {
    match m {
        DispoMode::Delivery => "Delivery"@,
        DispoMode::Pickup => "Pickup"@,
    }
}

impl JobRow {
    /// A one-line description of the record, field by field, with the dates
    /// in calendar form.
    pub fn to_display_string(&self) -> (r: String)
        requires
            self.early_date.wf(),
            self.late_date.wf(),
            self.calculated_date.wf(),
        ensures
            exists|ed: Seq<char>, ld: Seq<char>, cd: Seq<char>|
                {
                    &&& #[trigger] is_display_of_instant(self.early_date.secs as int, ed)
                    &&& #[trigger] is_display_of_instant(self.late_date.secs as int, ld)
                    &&& #[trigger] is_display_of_instant(self.calculated_date.secs as int, cd)
                    &&& r@ == "JobRow { mode: "@ + mode_display(self.mode) + ", job_number: "@
                        + self.job_number@ + ", hawb_number: "@ + self.hawb_number@
                        + ", temperature_range: "@ + temps_display_from(
                        self.temperature_ranges@,
                        0,
                    ) + ", quantities: "@ + int_str(self.quantities as int) + ", address: "@
                        + self.address@ + ", postal_code: "@ + self.postal_code@ + ", city: "@
                        + self.city@ + ", country: "@ + self.country@ + ", equipment: "@
                        + self.equipment@ + ", tolerance: "@ + int_str(self.tolerance as int)
                        + ", early_date: "@ + ed + ", late_date: "@ + ld + ", calculated_date: "@
                        + cd + ", contact_name: "@ + self.contact_name@ + " }"@
                },
    {
        let temps = temps_to_string(&self.temperature_ranges);
        let quantities = crate::text::i64_to_string(self.quantities as i64);
        let tolerance = crate::text::i64_to_string(self.tolerance as i64);
        let mode = self.mode.to_display_string();
        let early = self.early_date.to_display_string();
        let late = self.late_date.to_display_string();
        let calculated = self.calculated_date.to_display_string();
        let mut r = String::from_str("JobRow { mode: ");
        r.append(mode.as_str());
        r.append(", job_number: ");
        r.append(self.job_number.as_str());
        r.append(", hawb_number: ");
        r.append(self.hawb_number.as_str());
        r.append(", temperature_range: ");
        r.append(temps.as_str());
        r.append(", quantities: ");
        r.append(quantities.as_str());
        r.append(", address: ");
        r.append(self.address.as_str());
        r.append(", postal_code: ");
        r.append(self.postal_code.as_str());
        r.append(", city: ");
        r.append(self.city.as_str());
        r.append(", country: ");
        r.append(self.country.as_str());
        r.append(", equipment: ");
        r.append(self.equipment.as_str());
        r.append(", tolerance: ");
        r.append(tolerance.as_str());
        r.append(", early_date: ");
        r.append(early.as_str());
        r.append(", late_date: ");
        r.append(late.as_str());
        r.append(", calculated_date: ");
        r.append(calculated.as_str());
        r.append(", contact_name: ");
        r.append(self.contact_name.as_str());
        r.append(" }");
        r
    }
}

} // verus!
