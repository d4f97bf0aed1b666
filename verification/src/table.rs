//! The named-column table model and its relational operations: column
//! lookup, projection, and the inner join on a key column.

use vstd::prelude::*;
use vstd::string::StringExecFns;

use crate::cell::{clone_value, value_eq, Value, ValueV};
use crate::parse_error::ParseFilesError;
use crate::text::str_eq;

verus! {

/// One named column of typed values.
#[derive(Debug)]
pub struct Column {
    pub name: String,
    pub values: Vec<Value>,
}

/// The mathematical shape of a column.
#[verifier::ext_equal]
pub ghost struct ColumnV {
    pub name: Seq<char>,
    pub values: Seq<ValueV>,
}

impl View for Column {
    type V = ColumnV;

    open spec fn view(&self) -> ColumnV {
        ColumnV { name: self.name@, values: self.values.deep_view() }
    }
}

impl DeepView for Column {
    type V = ColumnV;

    open spec fn deep_view(&self) -> ColumnV {
        self.view()
    }
}

/// An ordered set of named columns; all columns have equal length and names
/// are unique.
#[derive(Debug)]
pub struct RawTable {
    pub columns: Vec<Column>,
}

impl View for RawTable {
    type V = Seq<ColumnV>;

    open spec fn view(&self) -> Seq<ColumnV> {
        self.columns.deep_view()
    }
}

/// Number of data rows of a table: the length of its first column.
pub open spec fn table_height(t: Seq<ColumnV>) -> int {
    if t.len() == 0 {
        0
    } else {
        t[0].values.len() as int
    }
}

/// Well-formedness: every column has the common height and no two columns
/// share a name.
pub open spec fn table_wf(t: Seq<ColumnV>) -> bool {
    &&& forall|i: int| 0 <= i < t.len() ==> #[trigger] t[i].values.len() == table_height(t)
    &&& forall|i: int, j: int| 0 <= i < j < t.len() ==> t[i].name != t[j].name
}

/// First index at or after `i` whose column carries `name`, or the number of
/// columns.
pub open spec fn col_index_from(t: Seq<ColumnV>, name: Seq<char>, i: int) -> int
    decreases t.len() - i,
{
    if !(0 <= i < t.len()) {
        t.len() as int
    } else if t[i].name == name {
        i
    } else {
        col_index_from(t, name, i + 1)
    }
}

pub open spec fn has_col(t: Seq<ColumnV>, name: Seq<char>) -> bool {
    col_index_from(t, name, 0) < t.len()
}

/// The values of the first column named `name`.
pub open spec fn col_values(t: Seq<ColumnV>, name: Seq<char>) -> Seq<ValueV> {
    t[col_index_from(t, name, 0)].values
}

pub proof fn lemma_col_index_from_bounds(t: Seq<ColumnV>, name: Seq<char>, i: int)
    requires
        0 <= i <= t.len(),
    ensures
        i <= col_index_from(t, name, i) <= t.len(),
        col_index_from(t, name, i) < t.len() ==> t[col_index_from(t, name, i)].name == name,
    decreases t.len() - i,
{
    if i < t.len() && t[i].name != name {
        lemma_col_index_from_bounds(t, name, i + 1);
    }
}

proof fn lemma_col_index_skip(t: Seq<ColumnV>, name: Seq<char>, j: int, i: int)
    requires
        0 <= j <= i < t.len(),
        forall|j2: int| j <= j2 < i ==> (#[trigger] t[j2]).name != name,
        t[i].name == name,
    ensures
        col_index_from(t, name, j) == i,
    decreases i - j,
{
    if j < i {
        lemma_col_index_skip(t, name, j + 1, i);
    }
}

/// In a well-formed table the column named like column `i` is column `i`.
pub proof fn lemma_col_lookup(t: Seq<ColumnV>, i: int)
    requires
        table_wf(t),
        0 <= i < t.len(),
    ensures
        col_index_from(t, t[i].name, 0) == i,
        has_col(t, t[i].name),
        col_values(t, t[i].name) == t[i].values,
{
    lemma_col_index_skip(t, t[i].name, 0, i);
}

/// A name no column carries is not found.
pub proof fn lemma_no_col(t: Seq<ColumnV>, name: Seq<char>)
    requires
        forall|i: int| 0 <= i < t.len() ==> (#[trigger] t[i]).name != name,
    ensures
        !has_col(t, name),
{
    lemma_col_index_runs_past(t, name, 0);
}

proof fn lemma_col_index_runs_past(t: Seq<ColumnV>, name: Seq<char>, j: int)
    requires
        0 <= j,
        forall|i: int| 0 <= i < t.len() ==> (#[trigger] t[i]).name != name,
    ensures
        col_index_from(t, name, j) == t.len(),
    decreases t.len() - j,
{
    if j < t.len() {
        lemma_col_index_runs_past(t, name, j + 1);
    }
}

/// If the scan of `t` for `name` runs past `a`, column `a` is not named
/// `name`.
proof fn lemma_col_index_not_found(t: Seq<ColumnV>, name: Seq<char>, i: int, a: int)
    requires
        0 <= i <= a < t.len(),
        col_index_from(t, name, i) >= t.len(),
    ensures
        t[a].name != name,
    decreases a - i,
{
    if i < a {
        lemma_col_index_not_found(t, name, i + 1, a);
    }
}

/// An exact copy of a value vector.
fn clone_values(src: &Vec<Value>) -> (r: Vec<Value>)
    ensures
        r.deep_view() == src.deep_view(),
{
    let n = src.len();
    let mut r: Vec<Value> = Vec::new();
    let mut k: usize = 0;
    while k < n
        invariant
            k <= n,
            n == src@.len(),
            r.deep_view() =~= src.deep_view().take(k as int),
        decreases n - k,
    {
        let ghost prev = r.deep_view();
        r.push(clone_value(&src[k]));
        proof {
            assert(r.deep_view() =~= prev.push(src@[k as int]@));
            assert(r.deep_view() =~= src.deep_view().take(k + 1));
        }
        k = k + 1;
    }
    proof {
        assert(r.deep_view() =~= src.deep_view());
    }
    r
}

/// Copies, for each index pair, the source value the selector picks.
fn gather_values(src: &Vec<Value>, pairs: &Vec<(usize, usize)>, left: bool) -> (r: Vec<Value>)
    requires
        left ==> forall|q: int| 0 <= q < pairs@.len() ==> (#[trigger] pairs@[q]).0 < src@.len(),
        !left ==> forall|q: int| 0 <= q < pairs@.len() ==> (#[trigger] pairs@[q]).1 < src@.len(),
    ensures
        r.deep_view().len() == pairs@.len(),
        left ==> forall|q: int|
            0 <= q < pairs@.len() ==> #[trigger] r.deep_view()[q] == src.deep_view()[pairs@[q].0 as int],
        !left ==> forall|q: int|
            0 <= q < pairs@.len() ==> #[trigger] r.deep_view()[q] == src.deep_view()[pairs@[q].1 as int],
{
    let np = pairs.len();
    let mut r: Vec<Value> = Vec::new();
    let mut p: usize = 0;
    while p < np
        invariant
            p <= np,
            np == pairs@.len(),
            left ==> forall|q: int|
                0 <= q < pairs@.len() ==> (#[trigger] pairs@[q]).0 < src@.len(),
            !left ==> forall|q: int|
                0 <= q < pairs@.len() ==> (#[trigger] pairs@[q]).1 < src@.len(),
            r.deep_view().len() == p as int,
            left ==> forall|q: int|
                0 <= q < p ==> #[trigger] r.deep_view()[q] == src.deep_view()[pairs@[q].0 as int],
            !left ==> forall|q: int|
                0 <= q < p ==> #[trigger] r.deep_view()[q] == src.deep_view()[pairs@[q].1 as int],
        decreases np - p,
    {
        let idx = if left {
            pairs[p].0
        } else {
            pairs[p].1
        };
        let ghost prev = r.deep_view();
        r.push(clone_value(&src[idx]));
        proof {
            assert(r.deep_view() =~= prev.push(src@[idx as int]@));
        }
        p = p + 1;
    }
    r
}

/// First index at or after `i` of a requested name the table does not
/// carry, or the number of requested names.
pub open spec fn first_missing(t: Seq<ColumnV>, names: Seq<&str>, i: int) -> int
    decreases names.len() - i,
{
    if !(0 <= i < names.len()) {
        names.len() as int
    } else if !has_col(t, names[i]@) {
        i
    } else {
        first_missing(t, names, i + 1)
    }
}

proof fn lemma_first_missing(t: Seq<ColumnV>, names: Seq<&str>, j: int, k: int)
    requires
        0 <= j <= k < names.len(),
        forall|q: int| j <= q < k ==> has_col(t, (#[trigger] names[q])@),
        !has_col(t, names[k]@),
    ensures
        first_missing(t, names, j) == k,
    decreases k - j,
{
    if j < k {
        lemma_first_missing(t, names, j + 1, k);
    }
}

impl RawTable {
    pub open spec fn wf(&self) -> bool {
        table_wf(self@)
    }

    /// Decides well-formedness: every column carries the common height and
    /// no two columns share a name.
    pub fn is_well_formed(&self) -> (r: bool)
        ensures
            r == self.wf(),
    {
        let n = self.columns.len();
        let h = self.height();
        let mut i: usize = 0;
        while i < n
            invariant
                i <= n,
                n == self@.len(),
                h == table_height(self@),
                forall|k: int| 0 <= k < i ==> #[trigger] self@[k].values.len() == table_height(
                    self@,
                ),
            decreases n - i,
        {
            if self.columns[i].values.len() != h {
                proof {
                    assert(self@[i as int] == self.columns@[i as int]@);
                    assert(self@[i as int].values.len() == self.columns@[i as int].values@.len());
                    assert(!self.wf());
                }
                return false;
            }
            i = i + 1;
        }
        let mut a: usize = 0;
        while a < n
            invariant
                a <= n,
                n == self@.len(),
                forall|k: int| 0 <= k < n ==> #[trigger] self@[k].values.len() == table_height(
                    self@,
                ),
                forall|x: int, y: int| 0 <= x < y < n && x < a ==> self@[x].name != self@[y].name,
            decreases n - a,
        {
            let mut b: usize = a + 1;
            while b < n
                invariant
                    a < b <= n || n == 0,
                    a < n,
                    n == self@.len(),
                    forall|y: int| a < y < b ==> self@[a as int].name != self@[y].name,
                decreases n - b,
            {
                if str_eq(self.columns[a].name.as_str(), self.columns[b].name.as_str()) {
                    proof {
                        assert(self@[a as int].name == self@[b as int].name);
                    }
                    return false;
                }
                b = b + 1;
            }
            a = a + 1;
        }
        true
    }

    /// Number of data rows.
    pub fn height(&self) -> (r: usize)
        ensures
            r == table_height(self@),
    {
        if self.columns.len() == 0 {
            0
        } else {
            self.columns[0].values.len()
        }
    }

    /// Index of the first column carrying `name`, if any.
    pub fn find_column(&self, name: &str) -> (r: Option<usize>)
        ensures
            has_col(self@, name@) ==> (r matches Some(ix) && ix as int == col_index_from(
                self@,
                name@,
                0,
            )),
            !has_col(self@, name@) ==> r is None,
    {
        let n = self.columns.len();
        let mut i: usize = 0;
        while i < n
            invariant
                i <= n,
                n == self@.len(),
                col_index_from(self@, name@, 0) == col_index_from(self@, name@, i as int),
            decreases n - i,
        {
            if str_eq(self.columns[i].name.as_str(), name) {
                proof {
                    lemma_col_index_from_bounds(self@, name@, i as int);
                }
                return Some(i);
            }
            i = i + 1;
        }
        None
    }

    /// Projection onto the named columns, in the given order; fails on the
    /// first requested name the table does not carry.
    pub fn select(&self, names: &[&str]) -> (r: Result<RawTable, ParseFilesError>)
        requires
            self.wf(),
            forall|i: int, j: int| 0 <= i < j < names@.len() ==> names@[i]@ != names@[j]@,
            names@.len() > 0,
        ensures
            r is Ok <==> (forall|i: int|
                0 <= i < names@.len() ==> #[trigger] has_col(self@, names@[i]@)),
            r matches Ok(out) ==> ({
                &&& out@.len() == names@.len()
                &&& forall|i: int|
                    0 <= i < names@.len() ==> (#[trigger] out@[i]).name == names@[i]@
                        && out@[i].values == col_values(self@, names@[i]@)
                &&& out.wf()
                &&& table_height(out@) == table_height(self@)
            }),
            r matches Err(e) ==> (e matches ParseFilesError::TableError(m) && first_missing(
                self@,
                names@,
                0,
            ) < names@.len() && m@ == "column not found: "@ + names@[first_missing(
                self@,
                names@,
                0,
            )]@),
    {
        let n = names.len();
        let mut cols: Vec<Column> = Vec::new();
        let mut i: usize = 0;
        while i < n
            invariant
                i <= n,
                n == names@.len(),
                self.wf(),
                cols.deep_view().len() == i as int,
                forall|k: int|
                    0 <= k < i ==> #[trigger] has_col(self@, names@[k]@) && cols.deep_view()[k].name
                        == names@[k]@ && cols.deep_view()[k].values == col_values(
                        self@,
                        names@[k]@,
                    ),
            decreases n - i,
        {
            let name = names[i];
            match self.find_column(name) {
                Some(ci) => {
                    proof {
                        lemma_col_index_from_bounds(self@, name@, 0);
                        assert(self@[ci as int] == self.columns@[ci as int]@);
                        assert(self@[ci as int].values == self.columns@[
                            ci as int
                        ].values.deep_view());
                    }
                    let vals = clone_values(&self.columns[ci].values);
                    proof {
                        assert(vals.deep_view() == self.columns@[ci as int].values.deep_view());
                        assert(col_values(self@, name@) == self.columns@[
                            ci as int
                        ].values.deep_view());
                    }
                    let col = Column { name: name.to_owned(), values: vals };
                    proof {
                        assert(col@.name == name@);
                        assert(col@.values == col_values(self@, name@));
                        assert(col@ == (ColumnV { name: name@, values: col_values(self@, name@) }));
                    }
                    let ghost prev = cols.deep_view();
                    let ghost prevcols = cols@;
                    cols.push(col);
                    proof {
                        assert(cols@ == prevcols.push(col));
                        assert(cols.deep_view() =~= prev.push(
                            ColumnV { name: name@, values: col_values(self@, name@) },
                        ));
                    }
                },
                None => {
                    proof {
                        lemma_first_missing(self@, names@, 0, i as int);
                    }
                    let mut m = String::from_str("column not found: ");
                    m.append(name);
                    return Err(ParseFilesError::TableError(m));
                },
            }
            i = i + 1;
        }
        let out = RawTable { columns: cols };
        proof {
            assert forall|a: int| 0 <= a < names@.len() implies (#[trigger] out@[a]).name
                == names@[a]@ && out@[a].values == col_values(self@, names@[a]@) by {
                assert(has_col(self@, names@[a]@));
            }
            assert forall|a: int| 0 <= a < out@.len() implies #[trigger] out@[a].values.len()
                == table_height(self@) by {
                assert(has_col(self@, names@[a]@));
                lemma_col_index_from_bounds(self@, names@[a]@, 0);
                assert(out@[a].values == col_values(self@, names@[a]@));
                assert(self@[col_index_from(self@, names@[a]@, 0)].values.len() == table_height(
                    self@,
                ));
            }
            assert(out@[0].values.len() == table_height(self@));
            assert(table_height(out@) == table_height(self@));
        }
        Ok(out)
    }
}

// ---------------------------------------------------------------------------
// The inner join.
// ---------------------------------------------------------------------------
/// The matching (left row, right row) index pairs of an inner join, scanned
/// in left-major order from position `(i, j)`.
pub open spec fn join_pairs_from(lk: Seq<ValueV>, rk: Seq<ValueV>, i: int, j: int) -> Seq<
    (int, int),
>
    decreases lk.len() - i, rk.len() - j,
{
    if !(0 <= i < lk.len()) {
        Seq::empty()
    } else if !(0 <= j < rk.len()) {
        join_pairs_from(lk, rk, i + 1, 0)
    } else if lk[i] == rk[j] {
        seq![(i, j)] + join_pairs_from(lk, rk, i, j + 1)
    } else {
        join_pairs_from(lk, rk, i, j + 1)
    }
}

/// All matching index pairs of an inner join of the two key columns.
pub open spec fn join_pairs(lk: Seq<ValueV>, rk: Seq<ValueV>) -> Seq<(int, int)> {
    join_pairs_from(lk, rk, 0, 0)
}

/// Number of matches of `k` in `rk` at or after position `j`.
pub open spec fn count_matches_from(k: ValueV, rk: Seq<ValueV>, j: int) -> int
    decreases rk.len() - j,
{
    if !(0 <= j < rk.len()) {
        0
    } else if rk[j] == k {
        1 + count_matches_from(k, rk, j + 1)
    } else {
        count_matches_from(k, rk, j + 1)
    }
}

proof fn lemma_join_pairs_row_len(lk: Seq<ValueV>, rk: Seq<ValueV>, i: int, j: int)
    requires
        0 <= i < lk.len(),
        0 <= j,
    ensures
        join_pairs_from(lk, rk, i, j).len() == count_matches_from(lk[i], rk, j)
            + join_pairs_from(lk, rk, i + 1, 0).len(),
    decreases rk.len() - j,
{
    if j < rk.len() {
        lemma_join_pairs_row_len(lk, rk, i, j + 1);
    }
}

/// Joining on key columns with no key in common yields no rows.
pub proof fn lemma_join_disjoint(lk: Seq<ValueV>, rk: Seq<ValueV>)
    requires
        forall|i: int, j: int| 0 <= i < lk.len() && 0 <= j < rk.len() ==> lk[i] != rk[j],
    ensures
        join_pairs(lk, rk).len() == 0,
{
    lemma_join_disjoint_from(lk, rk, 0);
}

proof fn lemma_join_disjoint_from(lk: Seq<ValueV>, rk: Seq<ValueV>, i: int)
    requires
        0 <= i,
        forall|i2: int, j: int| 0 <= i2 < lk.len() && 0 <= j < rk.len() ==> lk[i2] != rk[j],
    ensures
        join_pairs_from(lk, rk, i, 0).len() == 0,
    decreases lk.len() - i,
{
    if i < lk.len() {
        lemma_count_no_match(lk[i], rk, 0);
        lemma_join_pairs_row_len(lk, rk, i, 0);
        lemma_join_disjoint_from(lk, rk, i + 1);
    }
}

proof fn lemma_count_no_match(k: ValueV, rk: Seq<ValueV>, j: int)
    requires
        0 <= j,
        forall|j2: int| 0 <= j2 < rk.len() ==> rk[j2] != k,
    ensures
        count_matches_from(k, rk, j) == 0,
    decreases rk.len() - j,
{
    if j < rk.len() {
        lemma_count_no_match(k, rk, j + 1);
    }
}

/// Joining fully overlapping keys, each left key matching exactly one right
/// key, yields exactly one row per left row.
pub proof fn lemma_join_unique_overlap(lk: Seq<ValueV>, rk: Seq<ValueV>)
    requires
        forall|i: int| 0 <= i < lk.len() ==> count_matches_from(#[trigger] lk[i], rk, 0) == 1,
    ensures
        join_pairs(lk, rk).len() == lk.len(),
{
    lemma_join_unique_overlap_from(lk, rk, 0);
}

proof fn lemma_join_unique_overlap_from(lk: Seq<ValueV>, rk: Seq<ValueV>, i: int)
    requires
        0 <= i <= lk.len(),
        forall|i2: int| 0 <= i2 < lk.len() ==> count_matches_from(#[trigger] lk[i2], rk, 0) == 1,
    ensures
        join_pairs_from(lk, rk, i, 0).len() == lk.len() - i,
    decreases lk.len() - i,
{
    if i < lk.len() {
        lemma_join_pairs_row_len(lk, rk, i, 0);
        lemma_join_unique_overlap_from(lk, rk, i + 1);
    }
}

/// Position in the joined table of the right column with index `j`, once the
/// key column (index `rk`) is dropped.
pub open spec fn right_out_index(left_len: int, rk: int, j: int) -> int {
    if j < rk {
        left_len + j
    } else {
        left_len + j - 1
    }
}

impl RawTable {
    /// Inner join with `other` on the column named `key`: every pair of a
    /// left and a right row with equal key values yields one output row, in
    /// left-major order; unmatched rows are dropped. The output carries the
    /// left columns followed by the right columns minus the key column.
    /// Fails when either side lacks the key column or a non-key right column
    /// name already occurs on the left.
    pub fn inner_join(&self, other: &RawTable, key: &str) -> (r: Result<
        RawTable,
        ParseFilesError,
    >)
        requires
            self.wf(),
            other.wf(),
        ensures
            r is Ok <==> (has_col(self@, key@) && has_col(other@, key@) && (forall|j: int|
                0 <= j < other@.len() && j != col_index_from(other@, key@, 0) ==> !has_col(
                    self@,
                    (#[trigger] other@[j]).name,
                ))),
            r matches Ok(out) ==> ({
                let pairs = join_pairs(col_values(self@, key@), col_values(other@, key@));
                let ln = self@.len() as int;
                let rk = col_index_from(other@, key@, 0);
                &&& out@.len() == ln + other@.len() - 1
                &&& out.wf()
                &&& table_height(out@) == pairs.len()
                &&& forall|ci: int| 0 <= ci < ln ==> (#[trigger] out@[ci]).name == self@[ci].name
                &&& forall|ci: int, p: int|
                    0 <= ci < ln && 0 <= p < pairs.len() ==> (#[trigger] out@[ci].values[p])
                        == self@[ci].values[pairs[p].0]
                &&& forall|j: int|
                    0 <= j < other@.len() && j != rk ==> (#[trigger] out@[right_out_index(
                        ln,
                        rk,
                        j,
                    )]).name == other@[j].name
                &&& forall|j: int, p: int|
                    0 <= j < other@.len() && j != rk && 0 <= p < pairs.len() ==> (
                    #[trigger] out@[right_out_index(ln, rk, j)].values[p])
                        == other@[j].values[pairs[p].1]
            }),
            r matches Err(e) ==> (e is TableError),
    {
        let ln = self.columns.len();
        let rn = other.columns.len();
        let lk_idx = match self.find_column(key) {
            Some(i) => i,
            None => {
                let mut m = String::from_str("column not found: ");
                m.append(key);
                return Err(ParseFilesError::TableError(m));
            },
        };
        let rk_idx = match other.find_column(key) {
            Some(i) => i,
            None => {
                let mut m = String::from_str("column not found: ");
                m.append(key);
                return Err(ParseFilesError::TableError(m));
            },
        };
        proof {
            lemma_col_index_from_bounds(self@, key@, 0);
            lemma_col_index_from_bounds(other@, key@, 0);
        }
        // A non-key right column whose name already occurs on the left would
        // break name uniqueness in the output.
        let mut j: usize = 0;
        while j < rn
            invariant
                j <= rn,
                rn == other@.len(),
                rk_idx == col_index_from(other@, key@, 0),
                forall|k: int|
                    0 <= k < j && k != rk_idx ==> !has_col(self@, (#[trigger] other@[k]).name),
            decreases rn - j,
        {
            if j != rk_idx {
                match self.find_column(other.columns[j].name.as_str()) {
                    Some(_) => {
                        proof {
                            assert(other@[j as int].name == other.columns[j as int].name@);
                            assert(has_col(self@, other@[j as int].name));
                        }
                        let mut m = String::from_str("duplicate column name: ");
                        m.append(other.columns[j].name.as_str());
                        return Err(ParseFilesError::TableError(m));
                    },
                    None => {},
                }
            }
            j = j + 1;
        }
        // Collect the matching row pairs, in left-major order.
        let lkey = &self.columns[lk_idx].values;
        let rkey = &other.columns[rk_idx].values;
        let ghost lkv = col_values(self@, key@);
        let ghost rkv = col_values(other@, key@);
        proof {
            assert(lkey.deep_view() == lkv);
            assert(rkey.deep_view() == rkv);
            assert(lkv.len() == table_height(self@));
            assert(rkv.len() == table_height(other@));
        }
        let lh = lkey.len();
        let rh = rkey.len();
        let mut pairs: Vec<(usize, usize)> = Vec::new();
        let ghost pview = |p: (usize, usize)| (p.0 as int, p.1 as int);
        let mut i: usize = 0;
        while i < lh
            invariant
                i <= lh,
                lh == lkv.len(),
                rh == rkv.len(),
                lkey.deep_view() == lkv,
                rkey.deep_view() == rkv,
                pview == (|p: (usize, usize)| (p.0 as int, p.1 as int)),
                join_pairs(lkv, rkv) =~= pairs@.map_values(pview) + join_pairs_from(
                    lkv,
                    rkv,
                    i as int,
                    0,
                ),
                forall|p: int|
                    0 <= p < pairs@.len() ==> 0 <= (#[trigger] pairs@[p]).0 < lh && 0 <= pairs@[p].1
                        < rh,
            decreases lh - i,
        {
            let mut j2: usize = 0;
            while j2 < rh
                invariant
                    i < lh,
                    j2 <= rh,
                    lh == lkv.len(),
                    rh == rkv.len(),
                    lkey.deep_view() == lkv,
                    rkey.deep_view() == rkv,
                    pview == (|p: (usize, usize)| (p.0 as int, p.1 as int)),
                    join_pairs(lkv, rkv) =~= pairs@.map_values(pview) + join_pairs_from(
                        lkv,
                        rkv,
                        i as int,
                        j2 as int,
                    ),
                    forall|p: int|
                        0 <= p < pairs@.len() ==> 0 <= (#[trigger] pairs@[p]).0 < lh && 0
                            <= pairs@[p].1 < rh,
                decreases rh - j2,
            {
                if value_eq(&lkey[i], &rkey[j2]) {
                    proof {
                        assert(lkv[i as int] == rkv[j2 as int]);
                        assert(pairs@.push((i, j2)).map_values(pview) =~= pairs@.map_values(pview)
                            + seq![(i as int, j2 as int)]);
                    }
                    pairs.push((i, j2));
                }
                j2 = j2 + 1;
            }
            i = i + 1;
        }
        proof {
            assert(join_pairs(lkv, rkv) =~= pairs@.map_values(pview));
        }
        let ghost gpairs = join_pairs(lkv, rkv);
        let np = pairs.len();
        // Build the output columns: left columns, then non-key right columns.
        let mut cols: Vec<Column> = Vec::new();
        let mut ci: usize = 0;
        while ci < ln
            invariant
                ci <= ln,
                ln == self@.len(),
                self.wf(),
                gpairs == pairs@.map_values(pview),
                np == gpairs.len(),
                np == pairs@.len(),
                pview == (|p: (usize, usize)| (p.0 as int, p.1 as int)),
                forall|p: int|
                    0 <= p < pairs@.len() ==> 0 <= (#[trigger] pairs@[p]).0 < table_height(self@)
                        && 0 <= pairs@[p].1 < table_height(other@),
                cols.deep_view().len() == ci as int,
                forall|c: int|
                    0 <= c < ci ==> (#[trigger] cols.deep_view()[c]).name == self@[c].name
                        && cols.deep_view()[c].values.len() == np,
                forall|c: int, p: int|
                    0 <= c < ci && 0 <= p < np ==> (#[trigger] cols.deep_view()[c].values[p])
                        == self@[c].values[gpairs[p].0],
            decreases ln - ci,
        {
            let src = &self.columns[ci];
            proof {
                assert(self@[ci as int].values.len() == table_height(self@));
                assert(src.values.deep_view() == self@[ci as int].values);
            }
            let vals = gather_values(&src.values, &pairs, true);
            let ghost prev = cols.deep_view();
            cols.push(Column { name: src.name.clone(), values: vals });
            proof {
                assert(cols.deep_view() =~= prev.push(
                    ColumnV { name: self@[ci as int].name, values: vals.deep_view() },
                ));
                assert forall|p: int| 0 <= p < np implies #[trigger] vals.deep_view()[p]
                    == self@[ci as int].values[gpairs[p].0] by {
                    assert(vals.deep_view()[p] == src.values.deep_view()[pairs@[p].0 as int]);
                    assert(gpairs[p] == pview(pairs@[p]));
                }
            }
            ci = ci + 1;
        }
        let mut rj: usize = 0;
        while rj < rn
            invariant
                rj <= rn,
                rn == other@.len(),
                ln == self@.len(),
                other.wf(),
                rk_idx == col_index_from(other@, key@, 0),
                rk_idx < rn,
                gpairs == pairs@.map_values(pview),
                np == gpairs.len(),
                np == pairs@.len(),
                pview == (|p: (usize, usize)| (p.0 as int, p.1 as int)),
                forall|p: int|
                    0 <= p < pairs@.len() ==> 0 <= (#[trigger] pairs@[p]).0 < table_height(self@)
                        && 0 <= pairs@[p].1 < table_height(other@),
                cols.deep_view().len() == ln + (if rj <= rk_idx {
                    rj as int
                } else {
                    rj - 1
                }),
                forall|c: int|
                    0 <= c < ln ==> (#[trigger] cols.deep_view()[c]).name == self@[c].name
                        && cols.deep_view()[c].values.len() == np,
                forall|c: int, p: int|
                    0 <= c < ln && 0 <= p < np ==> (#[trigger] cols.deep_view()[c].values[p])
                        == self@[c].values[gpairs[p].0],
                forall|k: int|
                    0 <= k < rj && k != rk_idx ==> (#[trigger] cols.deep_view()[right_out_index(
                        ln as int,
                        rk_idx as int,
                        k,
                    )]).name == other@[k].name && cols.deep_view()[right_out_index(
                        ln as int,
                        rk_idx as int,
                        k,
                    )].values.len() == np,
                forall|k: int, p: int|
                    0 <= k < rj && k != rk_idx && 0 <= p < np ==> (
                    #[trigger] cols.deep_view()[right_out_index(ln as int, rk_idx as int, k)].values[p])
                        == other@[k].values[gpairs[p].1],
            decreases rn - rj,
        {
            if rj != rk_idx {
                let src = &other.columns[rj];
                proof {
                    assert(other@[rj as int].values.len() == table_height(other@));
                    assert(src.values.deep_view() == other@[rj as int].values);
                }
                let vals = gather_values(&src.values, &pairs, false);
                let ghost prev = cols.deep_view();
                cols.push(Column { name: src.name.clone(), values: vals });
                proof {
                    assert(cols.deep_view() =~= prev.push(
                        ColumnV { name: other@[rj as int].name, values: vals.deep_view() },
                    ));
                    assert(right_out_index(ln as int, rk_idx as int, rj as int) == prev.len());
                    assert forall|p: int| 0 <= p < np implies #[trigger] vals.deep_view()[p]
                        == other@[rj as int].values[gpairs[p].1] by {
                        assert(vals.deep_view()[p] == src.values.deep_view()[pairs@[p].1 as int]);
                        assert(gpairs[p] == pview(pairs@[p]));
                    }
                }
            }
            rj = rj + 1;
        }
        let out = RawTable { columns: cols };
        proof {
            let rk = rk_idx as int;
            assert(out@.len() == ln + rn - 1);
            // Name uniqueness: left names are unique among themselves, right
            // non-key names among themselves, and no right name occurs left.
            assert forall|a: int, b: int| 0 <= a < b < out@.len() implies out@[a].name
                != out@[b].name by {
                if a < ln && b >= ln as int {
                    let k = if b - ln < rk {
                        b - ln
                    } else {
                        b - ln + 1
                    };
                    assert(right_out_index(ln as int, rk, k) == b);
                    assert(out@[right_out_index(ln as int, rk, k)].name == other@[k].name);
                    assert(!has_col(self@, other@[k].name));
                    lemma_col_index_from_bounds(self@, other@[k].name, 0);
                    lemma_col_index_not_found(self@, other@[k].name, 0, a);
                } else if a >= ln as int {
                    let ka = if a - ln < rk {
                        a - ln
                    } else {
                        a - ln + 1
                    };
                    let kb = if b - ln < rk {
                        b - ln
                    } else {
                        b - ln + 1
                    };
                    assert(right_out_index(ln as int, rk, ka) == a);
                    assert(right_out_index(ln as int, rk, kb) == b);
                    assert(out@[a].name == other@[ka].name);
                    assert(out@[b].name == other@[kb].name);
                }
            }
            assert forall|c: int| 0 <= c < out@.len() implies #[trigger] out@[c].values.len()
                == table_height(out@) by {
                if c >= ln as int {
                    let k = if c - ln < rk {
                        c - ln
                    } else {
                        c - ln + 1
                    };
                    assert(right_out_index(ln as int, rk, k) == c);
                    assert(out@[right_out_index(ln as int, rk, k)].values.len() == np);
                }
                if ln > 0 {
                    assert(out@[0].values.len() == np);
                }
            }
        }
        Ok(out)
    }
}

} // verus!
