//! Result sets and the query-executing collaborator.
//!
//! A [`Database`] hands over raw result sets — column descriptors plus rows
//! of raw cells — and the verified driver decodes every cell by its column's
//! type tag. Decoding never aborts a row: a cell that does not fit its tag
//! becomes `Null`.

use vstd::prelude::*;

verus! {

use vstd::string::StringExecFns;
use crate::decode::{decode, spec_decode, DecodedValue, ValueModel};

/// One raw result set as the collaborator returns it: column descriptors
/// (name, source type tag), in result-set order, and rows of raw cells.
pub struct RawResultSet {
    pub columns: Vec<(String, String)>,
    pub rows: Vec<Vec<Option<Vec<u8>>>>,
}

/// A decoded result set: headers (column name, source type tag) and rows of
/// decoded values.
#[derive(Debug, PartialEq)]
pub struct DatabaseResult {
    pub headers: Vec<(String, String)>,
    pub rows: Vec<Vec<DecodedValue>>,
}

impl DatabaseResult {
    /// Every row carries exactly one decoded value per header.
    pub open spec fn wf(&self) -> bool {
        forall|i: int|
            0 <= i < self.rows@.len() ==> #[trigger] self.rows@[i]@.len() == self.headers@.len()
    }
}

/// The decoded form of one raw row under the given column descriptors: one
/// value per column, decoded by the column's tag, with `Null` for cells the
/// row does not have.
pub open spec fn spec_decode_row(
    cols: Seq<(Seq<char>, Seq<char>)>,
    row: Seq<Option<Seq<u8>>>,
) -> Seq<ValueModel> {
    Seq::new(
        cols.len(),
        |i: int|
            if i < row.len() {
                spec_decode(cols[i].1, row[i])
            } else {
                ValueModel::Null
            },
    )
}

/// All rows decoded under the given column descriptors.
pub open spec fn spec_decode_rows(
    cols: Seq<(Seq<char>, Seq<char>)>,
    rows: Seq<Seq<Option<Seq<u8>>>>,
) -> Seq<Seq<ValueModel>> {
    Seq::new(rows.len(), |i: int| spec_decode_row(cols, rows[i]))
}

/// Decodes a raw result set. With no rows, the result is fully empty — no
/// headers are reported for a result nothing came back for. With rows, the
/// headers are exactly the column descriptors and every cell is decoded by
/// its column's tag.
pub fn decode_result_set(raw: &RawResultSet) -> (r: DatabaseResult)
    ensures
        r.wf(),
        raw.rows@.len() == 0 ==> r.headers@.len() == 0 && r.rows@.len() == 0,
        raw.rows@.len() > 0 ==> r.headers.deep_view() == raw.columns.deep_view()
            && r.rows.deep_view() == spec_decode_rows(
            raw.columns.deep_view(),
            raw.rows.deep_view(),
        ),
{
    if raw.rows.len() == 0 {
        return DatabaseResult { headers: Vec::new(), rows: Vec::new() };
    }
    let mut headers: Vec<(String, String)> = Vec::new();
    let mut i: usize = 0;
    while i < raw.columns.len()
        invariant
            i <= raw.columns@.len(),
            headers.deep_view() == raw.columns.deep_view().take(i as int),
        decreases raw.columns@.len() - i,
    {
        let ghost h0 = headers.deep_view();
        let c = &raw.columns[i];
        headers.push((c.0.clone(), c.1.clone()));
        proof {
            assert(h0.len() == i);
            assert(headers.deep_view() =~= raw.columns.deep_view().take(i + 1));
        }
        i = i + 1;
    }
    proof {
        assert(raw.columns.deep_view().take(raw.columns@.len() as int) =~= raw.columns.deep_view());
    }
    let none_cell: Option<Vec<u8>> = None;
    let mut rows: Vec<Vec<DecodedValue>> = Vec::new();
    let mut k: usize = 0;
    while k < raw.rows.len()
        invariant
            k <= raw.rows@.len(),
            headers.deep_view() == raw.columns.deep_view(),
            headers@.len() == raw.columns@.len(),
            none_cell is None,
            rows.deep_view() == spec_decode_rows(
                raw.columns.deep_view(),
                raw.rows.deep_view(),
            ).take(k as int),
            forall|m: int| 0 <= m < rows@.len() ==> #[trigger] rows@[m]@.len() == headers@.len(),
        decreases raw.rows@.len() - k,
    {
        let row = &raw.rows[k];
        let mut out_row: Vec<DecodedValue> = Vec::new();
        let mut j: usize = 0;
        while j < raw.columns.len()
            invariant
                j <= raw.columns@.len(),
                k < raw.rows@.len(),
                none_cell is None,
                row == &raw.rows@[k as int],
                out_row.deep_view() == spec_decode_row(
                    raw.columns.deep_view(),
                    raw.rows.deep_view()[k as int],
                ).take(j as int),
            decreases raw.columns@.len() - j,
        {
            let ghost o0 = out_row.deep_view();
            let tag = &raw.columns[j].1;
            let v = if j < row.len() {
                decode(tag.as_str(), &row[j])
            } else {
                decode(tag.as_str(), &none_cell)
            };
            proof {
                if j < row@.len() {
                    assert(row@[j as int].deep_view() == raw.rows.deep_view()[k as int][j as int]);
                }
            }
            out_row.push(v);
            proof {
                assert(o0.len() == j);
                assert(out_row.deep_view() =~= spec_decode_row(
                    raw.columns.deep_view(),
                    raw.rows.deep_view()[k as int],
                ).take(j + 1));
            }
            j = j + 1;
        }
        proof {
            assert(spec_decode_row(
                raw.columns.deep_view(),
                raw.rows.deep_view()[k as int],
            ).take(raw.columns@.len() as int) =~= spec_decode_row(
                raw.columns.deep_view(),
                raw.rows.deep_view()[k as int],
            ));
        }
        let ghost r0 = rows.deep_view();
        proof {
            assert(out_row@.len() == headers@.len());
        }
        rows.push(out_row);
        proof {
            assert(r0.len() == k);
            assert(rows.deep_view() =~= spec_decode_rows(
                raw.columns.deep_view(),
                raw.rows.deep_view(),
            ).take(k + 1));
        }
        k = k + 1;
    }
    proof {
        assert(spec_decode_rows(raw.columns.deep_view(), raw.rows.deep_view()).take(
            raw.rows@.len() as int,
        ) =~= spec_decode_rows(raw.columns.deep_view(), raw.rows.deep_view()));
    }
    DatabaseResult { headers, rows }
}

/// The query-executing collaborator: accepts raw query text and yields raw
/// rows and columns, or an error string. Implementations live outside this
/// crate, next to the connection they own; one connection serves one
/// session.
pub trait Database {
    /// Runs a query and hands back its raw result set.
    fn fetch(&mut self, query: &str) -> Result<RawResultSet, String>;

    /// Runs a statement with no tabular result.
    fn execute(&mut self, statement: &str) -> Result<(), String>;
}

/// Runs a query and decodes its result set. The decoded result is
/// well-formed whatever the collaborator returned; a query error is passed
/// through unchanged and never panics.
pub fn get_results<D: Database>(db: &mut D, query: &str) -> (r: Result<DatabaseResult, String>)
    ensures
        r matches Ok(d) ==> d.wf(),
{
    match db.fetch(query) {
        Ok(raw) => Ok(decode_result_set(&raw)),
        Err(e) => Err(e),
    }
}

/// Runs a statement and reports plain success, as the session loop expects
/// it.
pub fn execute<D: Database>(db: &mut D, statement: &str) -> (r: Result<String, String>)
    ensures
        r matches Ok(s) ==> s@ == "ok"@,
{
    match db.execute(statement) {
        Ok(_) => Ok(String::from_str("ok")),
        Err(e) => Err(e),
    }
}

} // verus!
