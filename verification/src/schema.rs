//! The schema introspector: two fixed catalog queries, aggregated into a
//! table/column listing and a reverse foreign-key index.
//!
//! Columns are grouped per table in first-seen order, keeping column
//! arrival order. Foreign keys are inverted: the index is keyed by the
//! *referenced* `table.column` and lists the *referencing* `table.column`
//! strings that point at it — the direction a consumer needs to describe
//! join fan-out. Failure of either query is fatal: no partial schema is
//! ever returned.

use vstd::prelude::*;

verus! {

use vstd::string::StringExecFns;
use vstd::utf8::{valid_utf8, decode_utf8};
use crate::db::{Database, RawResultSet};
use crate::text::string_from_utf8;

/// One row of the column-enumeration query.
pub struct ColumnRow {
    pub table: String,
    pub column: String,
    pub data_type: String,
}

impl View for ColumnRow {
    type V = (Seq<char>, Seq<char>, Seq<char>);

    open spec fn view(&self) -> (Seq<char>, Seq<char>, Seq<char>) {
        (self.table@, self.column@, self.data_type@)
    }
}

impl DeepView for ColumnRow {
    type V = (Seq<char>, Seq<char>, Seq<char>);

    open spec fn deep_view(&self) -> (Seq<char>, Seq<char>, Seq<char>) {
        self.view()
    }
}

/// One row of the foreign-key enumeration query.
pub struct ForeignKeyRow {
    pub referencing_table: String,
    pub referencing_column: String,
    pub referenced_table: String,
    pub referenced_column: String,
}

impl View for ForeignKeyRow {
    type V = (Seq<char>, Seq<char>, Seq<char>, Seq<char>);

    open spec fn view(&self) -> (Seq<char>, Seq<char>, Seq<char>, Seq<char>) {
        (
            self.referencing_table@,
            self.referencing_column@,
            self.referenced_table@,
            self.referenced_column@,
        )
    }
}

impl DeepView for ForeignKeyRow {
    type V = (Seq<char>, Seq<char>, Seq<char>, Seq<char>);

    open spec fn deep_view(&self) -> (Seq<char>, Seq<char>, Seq<char>, Seq<char>) {
        self.view()
    }
}

/// The aggregated schema description: per-table column lists in first-seen
/// order, and the reverse foreign-key index keyed by `table.column`.
pub struct SchemaGraph {
    pub tables: Vec<(String, Vec<(String, String)>)>,
    pub references: Vec<(String, Vec<String>)>,
}

/// No key occurs twice in an association list.
pub open spec fn spec_unique_keys<V>(entries: Seq<(Seq<char>, V)>) -> bool {
    forall|i: int, j: int|
        0 <= i < j < entries.len() ==> #[trigger] entries[i].0 != #[trigger] entries[j].0
}

impl SchemaGraph {
    /// Table names and reference keys are unique.
    pub open spec fn wf(&self) -> bool {
        spec_unique_keys(self.tables.deep_view()) && spec_unique_keys(self.references.deep_view())
    }
}

/// The first index holding `key`, or `-1`.
pub open spec fn spec_find_key<V>(entries: Seq<(Seq<char>, V)>, key: Seq<char>) -> int
    decreases entries.len(),
{
    if entries.len() == 0 {
        -1
    } else if entries[0].0 == key {
        0
    } else {
        let r = spec_find_key(entries.drop_first(), key);
        if r == -1 {
            -1
        } else {
            r + 1
        }
    }
}

pub proof fn lemma_find_key<V>(entries: Seq<(Seq<char>, V)>, key: Seq<char>)
    ensures
        spec_find_key(entries, key) == -1 ==> forall|k: int|
            0 <= k < entries.len() ==> #[trigger] entries[k].0 != key,
        spec_find_key(entries, key) != -1 ==> 0 <= spec_find_key(entries, key) < entries.len()
            && entries[spec_find_key(entries, key)].0 == key && forall|k: int|
            0 <= k < spec_find_key(entries, key) ==> #[trigger] entries[k].0 != key,
    decreases entries.len(),
{
    if entries.len() == 0 {
    } else if entries[0].0 == key {
    } else {
        lemma_find_key(entries.drop_first(), key);
        let r = spec_find_key(entries.drop_first(), key);
        if r == -1 {
            assert forall|k: int| 0 <= k < entries.len() implies #[trigger] entries[k].0
                != key by {
                if k >= 1 {
                    assert(entries.drop_first()[k - 1] == entries[k]);
                }
            }
        } else {
            assert(entries.drop_first()[r] == entries[r + 1]);
            assert forall|k: int|
                0 <= k < spec_find_key(entries, key) implies #[trigger] entries[k].0 != key by {
                if k >= 1 {
                    assert(entries.drop_first()[k - 1] == entries[k]);
                }
            }
        }
    }
}

/// Appends `item` under `key`: to the existing entry when the key is
/// already present, as a new last entry otherwise.
pub open spec fn spec_add_entry<V>(
    entries: Seq<(Seq<char>, Seq<V>)>,
    key: Seq<char>,
    item: V,
) -> Seq<(Seq<char>, Seq<V>)> {
    let i = spec_find_key(entries, key);
    if i >= 0 {
        entries.update(i, (key, entries[i].1.push(item)))
    } else {
        entries.push((key, seq![item]))
    }
}

pub proof fn lemma_add_entry_unique<V>(entries: Seq<(Seq<char>, Seq<V>)>, key: Seq<char>, item: V)
    requires
        spec_unique_keys(entries),
    ensures
        spec_unique_keys(spec_add_entry(entries, key, item)),
{
    lemma_find_key(entries, key);
    let i = spec_find_key(entries, key);
    if i >= 0 {
        assert(entries[i].0 == key);
        assert forall|a: int, b: int|
            0 <= a < b < spec_add_entry(entries, key, item).len() implies #[trigger] spec_add_entry(
            entries,
            key,
            item,
        )[a].0 != #[trigger] spec_add_entry(entries, key, item)[b].0 by {
            assert(spec_add_entry(entries, key, item)[a].0 == entries[a].0);
            assert(spec_add_entry(entries, key, item)[b].0 == entries[b].0);
        }
    } else {
        assert forall|a: int, b: int|
            0 <= a < b < spec_add_entry(entries, key, item).len() implies #[trigger] spec_add_entry(
            entries,
            key,
            item,
        )[a].0 != #[trigger] spec_add_entry(entries, key, item)[b].0 by {
            if b < entries.len() {
            } else {
                assert(spec_add_entry(entries, key, item)[b].0 == key);
                assert(entries[a].0 != key);
            }
        }
    }
}

/// `table.column`.
pub open spec fn spec_dotted(t: Seq<char>, c: Seq<char>) -> Seq<char> {
    t + "."@ + c
}

/// The per-table column lists grown from the rows, in first-seen table
/// order and column arrival order.
pub open spec fn spec_group_cols(rows: Seq<(Seq<char>, Seq<char>, Seq<char>)>) -> Seq<
    (Seq<char>, Seq<(Seq<char>, Seq<char>)>),
>
    decreases rows.len(),
{
    if rows.len() == 0 {
        Seq::empty()
    } else {
        spec_add_entry(
            spec_group_cols(rows.drop_last()),
            rows.last().0,
            (rows.last().1, rows.last().2),
        )
    }
}

/// The reverse foreign-key index grown from the rows: each row files
/// `referencing.column` under the key `referenced.column`.
pub open spec fn spec_group_refs(rows: Seq<(Seq<char>, Seq<char>, Seq<char>, Seq<char>)>) -> Seq<
    (Seq<char>, Seq<Seq<char>>),
>
    decreases rows.len(),
{
    if rows.len() == 0 {
        Seq::empty()
    } else {
        spec_add_entry(
            spec_group_refs(rows.drop_last()),
            spec_dotted(rows.last().2, rows.last().3),
            spec_dotted(rows.last().0, rows.last().1),
        )
    }
}

proof fn lemma_group_cols_unique(rows: Seq<(Seq<char>, Seq<char>, Seq<char>)>)
    ensures
        spec_unique_keys(spec_group_cols(rows)),
    decreases rows.len(),
{
    if rows.len() == 0 {
    } else {
        lemma_group_cols_unique(rows.drop_last());
        lemma_add_entry_unique(
            spec_group_cols(rows.drop_last()),
            rows.last().0,
            (rows.last().1, rows.last().2),
        );
    }
}

proof fn lemma_group_refs_unique(rows: Seq<(Seq<char>, Seq<char>, Seq<char>, Seq<char>)>)
    ensures
        spec_unique_keys(spec_group_refs(rows)),
    decreases rows.len(),
{
    if rows.len() == 0 {
    } else {
        lemma_group_refs_unique(rows.drop_last());
        lemma_add_entry_unique(
            spec_group_refs(rows.drop_last()),
            spec_dotted(rows.last().2, rows.last().3),
            spec_dotted(rows.last().0, rows.last().1),
        );
    }
}

fn find_key<V>(entries: &Vec<(String, Vec<V>)>, key: &String) -> (r: Option<usize>)
    where V: DeepView
    ensures
        r matches Some(i) ==> i < entries@.len() && spec_find_key(entries.deep_view(), key@)
            == i as int,
        r is None ==> spec_find_key(entries.deep_view(), key@) == -1,
{
    proof {
        lemma_find_key(entries.deep_view(), key@);
    }
    let mut i: usize = 0;
    while i < entries.len()
        invariant
            i <= entries@.len(),
            forall|k: int| 0 <= k < i ==> #[trigger] entries.deep_view()[k].0 != key@,
            spec_find_key(entries.deep_view(), key@) == -1 || spec_find_key(
                entries.deep_view(),
                key@,
            ) >= i,
        decreases entries@.len() - i,
    {
        let hit = entries[i].0 == *key;
        proof {
            assert(entries.deep_view()[i as int].0 == entries@[i as int].0@);
            lemma_find_key(entries.deep_view(), key@);
        }
        if hit {
            return Some(i);
        }
        i = i + 1;
    }
    None
}

fn add_entry<V>(entries: &mut Vec<(String, Vec<V>)>, key: String, item: V)
    where V: DeepView
    ensures
        final(entries).deep_view() == spec_add_entry(
            old(entries).deep_view(),
            key@,
            item.deep_view(),
        ),
{
    let ghost e0 = entries.deep_view();
    match find_key(entries, &key) {
        Some(i) => {
            let ghost v0 = entries@[i as int].1.deep_view();
            proof {
                lemma_find_key(e0, key@);
            }
            entries[i].1.push(item);
            proof {
                assert(entries@[i as int].1.deep_view() =~= v0.push(item.deep_view()));
                assert(e0[i as int].0 == key@);
                assert(entries.deep_view() =~= spec_add_entry(e0, key@, item.deep_view()));
            }
        },
        None => {
            let mut list: Vec<V> = Vec::new();
            list.push(item);
            proof {
                assert(list.deep_view() =~= seq![item.deep_view()]);
            }
            entries.push((key, list));
            proof {
                assert(entries.deep_view() =~= spec_add_entry(e0, key@, item.deep_view()));
            }
        },
    }
}

/// Joins a table name and a column name as `table.column`.
pub fn dotted(t: &String, c: &String) -> (r: String)
    ensures
        r@ == spec_dotted(t@, c@),
{
    let mut r = t.clone();
    r.append(".");
    r.append(c.as_str());
    r
}

/// Aggregates the two catalog listings into a schema graph: per-table
/// column lists in first-seen order, and the reverse foreign-key index.
pub fn build_schema(columns: &Vec<ColumnRow>, fks: &Vec<ForeignKeyRow>) -> (g: SchemaGraph)
    ensures
        g.tables.deep_view() == spec_group_cols(columns.deep_view()),
        g.references.deep_view() == spec_group_refs(fks.deep_view()),
        g.wf(),
{
    let mut tables: Vec<(String, Vec<(String, String)>)> = Vec::new();
    let mut i: usize = 0;
    while i < columns.len()
        invariant
            i <= columns@.len(),
            tables.deep_view() == spec_group_cols(columns.deep_view().take(i as int)),
        decreases columns@.len() - i,
    {
        let row = &columns[i];
        add_entry(&mut tables, row.table.clone(), (row.column.clone(), row.data_type.clone()));
        proof {
            assert(columns.deep_view().take(i + 1).drop_last() =~= columns.deep_view().take(
                i as int,
            ));
            assert(columns.deep_view().take(i + 1).last() == columns.deep_view()[i as int]);
        }
        i = i + 1;
    }
    let mut references: Vec<(String, Vec<String>)> = Vec::new();
    let mut j: usize = 0;
    while j < fks.len()
        invariant
            j <= fks@.len(),
            references.deep_view() == spec_group_refs(fks.deep_view().take(j as int)),
        decreases fks@.len() - j,
    {
        let row = &fks[j];
        let key = dotted(&row.referenced_table, &row.referenced_column);
        let val = dotted(&row.referencing_table, &row.referencing_column);
        add_entry(&mut references, key, val);
        proof {
            assert(fks.deep_view().take(j + 1).drop_last() =~= fks.deep_view().take(j as int));
            assert(fks.deep_view().take(j + 1).last() == fks.deep_view()[j as int]);
        }
        j = j + 1;
    }
    proof {
        assert(columns.deep_view().take(columns@.len() as int) =~= columns.deep_view());
        assert(fks.deep_view().take(fks@.len() as int) =~= fks.deep_view());
        lemma_group_cols_unique(columns.deep_view());
        lemma_group_refs_unique(fks.deep_view());
    }
    SchemaGraph { tables, references }
}

// ---------------------------------------------------------------------
// Reading the catalog result sets
// ---------------------------------------------------------------------

/// The text a raw cell carries: present and valid UTF-8, or nothing.
pub open spec fn spec_text_cell(c: Option<Seq<u8>>) -> Option<Seq<char>> {
    match c {
        Option::None => Option::None,
        Option::Some(b) => if valid_utf8(b) {
            Option::Some(decode_utf8(b))
        } else {
            Option::None
        },
    }
}

fn text_cell(c: &Option<Vec<u8>>) -> (r: Option<String>)
    ensures
        r is Some <==> spec_text_cell(c.deep_view()) is Some,
        r matches Some(s) ==> Option::Some(s@) == spec_text_cell(c.deep_view()),
{
    match c {
        Option::None => None,
        Option::Some(b) => {
            proof {
                assert(b.deep_view() =~= b@);
            }
            string_from_utf8(b.as_slice())
        },
    }
}

/// A catalog row read as a column listing: the first three cells as text.
pub open spec fn spec_col_row(row: Seq<Option<Seq<u8>>>) -> Option<
    (Seq<char>, Seq<char>, Seq<char>),
> {
    if row.len() >= 3 && spec_text_cell(row[0]) is Some && spec_text_cell(row[1]) is Some
        && spec_text_cell(row[2]) is Some {
        Option::Some(
            (
                spec_text_cell(row[0])->Some_0,
                spec_text_cell(row[1])->Some_0,
                spec_text_cell(row[2])->Some_0,
            ),
        )
    } else {
        Option::None
    }
}

/// A catalog row read as a foreign-key listing: the first four cells as
/// text.
pub open spec fn spec_fk_row(row: Seq<Option<Seq<u8>>>) -> Option<
    (Seq<char>, Seq<char>, Seq<char>, Seq<char>),
> {
    if row.len() >= 4 && spec_text_cell(row[0]) is Some && spec_text_cell(row[1]) is Some
        && spec_text_cell(row[2]) is Some && spec_text_cell(row[3]) is Some {
        Option::Some(
            (
                spec_text_cell(row[0])->Some_0,
                spec_text_cell(row[1])->Some_0,
                spec_text_cell(row[2])->Some_0,
                spec_text_cell(row[3])->Some_0,
            ),
        )
    } else {
        Option::None
    }
}

/// Reads the column-enumeration result set. `None` exactly when some row
/// lacks its three text cells.
fn column_rows(rs: &RawResultSet) -> (r: Option<Vec<ColumnRow>>)
    ensures
        r matches Some(v) ==> v@.len() == rs.rows@.len() && (forall|i: int|
            0 <= i < v@.len() ==> (#[trigger] spec_col_row(rs.rows.deep_view()[i])) is Some)
            && (forall|i: int|
            0 <= i < v@.len() ==> Option::Some(#[trigger] v.deep_view()[i]) == spec_col_row(
                rs.rows.deep_view()[i],
            )),
        r is None ==> exists|i: int|
            0 <= i < rs.rows@.len() && spec_col_row(#[trigger] rs.rows.deep_view()[i]) is None,
{
    let mut v: Vec<ColumnRow> = Vec::new();
    let mut i: usize = 0;
    while i < rs.rows.len()
        invariant
            i <= rs.rows@.len(),
            v@.len() == i,
            forall|k: int|
                0 <= k < i ==> (#[trigger] spec_col_row(rs.rows.deep_view()[k])) is Some,
            forall|k: int|
                0 <= k < i ==> Option::Some(#[trigger] v.deep_view()[k]) == spec_col_row(
                    rs.rows.deep_view()[k],
                ),
        decreases rs.rows@.len() - i,
    {
        let row = &rs.rows[i];
        if row.len() < 3 {
            assert(spec_col_row(rs.rows.deep_view()[i as int]) is None);
            return None;
        }
        let t0 = text_cell(&row[0]);
        let t1 = text_cell(&row[1]);
        let t2 = text_cell(&row[2]);
        proof {
            assert(row@[0].deep_view() == rs.rows.deep_view()[i as int][0]);
            assert(row@[1].deep_view() == rs.rows.deep_view()[i as int][1]);
            assert(row@[2].deep_view() == rs.rows.deep_view()[i as int][2]);
        }
        match (t0, t1, t2) {
            (Some(table), Some(column), Some(data_type)) => {
                let ghost v0 = v.deep_view();
                let ghost tv = (table@, column@, data_type@);
                v.push(ColumnRow { table, column, data_type });
                proof {
                    assert(v0.len() == i);
                    assert(v.deep_view()[i as int] == tv);
                    assert(Option::Some(tv) == spec_col_row(rs.rows.deep_view()[i as int]));
                    assert forall|k: int|
                        0 <= k < i + 1 implies Option::Some(#[trigger] v.deep_view()[k])
                        == spec_col_row(rs.rows.deep_view()[k]) by {
                        if k < i {
                            assert(v.deep_view()[k] == v0[k]);
                            assert(Option::Some(v0[k]) == spec_col_row(rs.rows.deep_view()[k]));
                        }
                    }
                }
            },
            _ => {
                assert(spec_col_row(rs.rows.deep_view()[i as int]) is None);
                return None;
            },
        }
        i = i + 1;
    }
    Some(v)
}

/// Reads the foreign-key result set. `None` exactly when some row lacks
/// its four text cells.
fn fk_rows(rs: &RawResultSet) -> (r: Option<Vec<ForeignKeyRow>>)
    ensures
        r matches Some(v) ==> v@.len() == rs.rows@.len() && (forall|i: int|
            0 <= i < v@.len() ==> (#[trigger] spec_fk_row(rs.rows.deep_view()[i])) is Some)
            && (forall|i: int|
            0 <= i < v@.len() ==> Option::Some(#[trigger] v.deep_view()[i]) == spec_fk_row(
                rs.rows.deep_view()[i],
            )),
        r is None ==> exists|i: int|
            0 <= i < rs.rows@.len() && spec_fk_row(#[trigger] rs.rows.deep_view()[i]) is None,
{
    let mut v: Vec<ForeignKeyRow> = Vec::new();
    let mut i: usize = 0;
    while i < rs.rows.len()
        invariant
            i <= rs.rows@.len(),
            v@.len() == i,
            forall|k: int|
                0 <= k < i ==> (#[trigger] spec_fk_row(rs.rows.deep_view()[k])) is Some,
            forall|k: int|
                0 <= k < i ==> Option::Some(#[trigger] v.deep_view()[k]) == spec_fk_row(
                    rs.rows.deep_view()[k],
                ),
        decreases rs.rows@.len() - i,
    {
        let row = &rs.rows[i];
        if row.len() < 4 {
            assert(spec_fk_row(rs.rows.deep_view()[i as int]) is None);
            return None;
        }
        let t0 = text_cell(&row[0]);
        let t1 = text_cell(&row[1]);
        let t2 = text_cell(&row[2]);
        let t3 = text_cell(&row[3]);
        proof {
            assert(row@[0].deep_view() == rs.rows.deep_view()[i as int][0]);
            assert(row@[1].deep_view() == rs.rows.deep_view()[i as int][1]);
            assert(row@[2].deep_view() == rs.rows.deep_view()[i as int][2]);
            assert(row@[3].deep_view() == rs.rows.deep_view()[i as int][3]);
        }
        match (t0, t1, t2, t3) {
            (
                Some(referencing_table),
                Some(referencing_column),
                Some(referenced_table),
                Some(referenced_column),
            ) => {
                let ghost v0 = v.deep_view();
                let ghost tv = (
                    referencing_table@,
                    referencing_column@,
                    referenced_table@,
                    referenced_column@,
                );
                v.push(
                    ForeignKeyRow {
                        referencing_table,
                        referencing_column,
                        referenced_table,
                        referenced_column,
                    },
                );
                proof {
                    assert(v0.len() == i);
                    assert(v.deep_view()[i as int] == tv);
                    assert(Option::Some(tv) == spec_fk_row(rs.rows.deep_view()[i as int]));
                    assert forall|k: int|
                        0 <= k < i + 1 implies Option::Some(#[trigger] v.deep_view()[k])
                        == spec_fk_row(rs.rows.deep_view()[k]) by {
                        if k < i {
                            assert(v.deep_view()[k] == v0[k]);
                            assert(Option::Some(v0[k]) == spec_fk_row(rs.rows.deep_view()[k]));
                        }
                    }
                }
            },
            _ => {
                assert(spec_fk_row(rs.rows.deep_view()[i as int]) is None);
                return None;
            },
        }
        i = i + 1;
    }
    Some(v)
}

// ---------------------------------------------------------------------
// The two catalog queries and the introspection driver
// ---------------------------------------------------------------------

/// The column-enumeration query: every column of every user-visible table
/// in the default schema, including session-scoped tables, tagged with its
/// native type name.
pub fn columns_query() -> (q: String)
    ensures
        q@ == spec_columns_query(),
{
    String::from_str(
        "SELECT c.table_name, c.column_name, c.udt_name AS pg_type FROM information_schema.columns c WHERE c.table_schema = 'public' UNION ALL SELECT c.relname AS table_name, a.attname AS column_name, t.typname AS pg_type FROM pg_class c JOIN pg_namespace n ON n.oid = c.relnamespace JOIN pg_attribute a ON a.attrelid = c.oid JOIN pg_type t ON t.oid = a.atttypid WHERE c.relpersistence = 't' AND a.attnum > 0 AND NOT a.attisdropped;",
    )
}

/// The text of the column-enumeration query.
pub open spec fn spec_columns_query() -> Seq<char> {
    "SELECT c.table_name, c.column_name, c.udt_name AS pg_type FROM information_schema.columns c WHERE c.table_schema = 'public' UNION ALL SELECT c.relname AS table_name, a.attname AS column_name, t.typname AS pg_type FROM pg_class c JOIN pg_namespace n ON n.oid = c.relnamespace JOIN pg_attribute a ON a.attrelid = c.oid JOIN pg_type t ON t.oid = a.atttypid WHERE c.relpersistence = 't' AND a.attnum > 0 AND NOT a.attisdropped;"@
}

/// The foreign-key enumeration query: every active foreign-key constraint
/// of the default schema as a (referencing table, referencing column,
/// referenced table, referenced column) tuple.
pub fn foreign_keys_query() -> (q: String)
    ensures
        q@ == spec_foreign_keys_query(),
{
    String::from_str(
        "SELECT tc.table_name AS referencing_table, kcu.column_name AS referencing_column, ccu.table_name AS referenced_table, ccu.column_name AS referenced_column FROM information_schema.table_constraints AS tc JOIN information_schema.key_column_usage AS kcu ON tc.constraint_name = kcu.constraint_name AND tc.table_schema = kcu.table_schema JOIN information_schema.constraint_column_usage AS ccu ON ccu.constraint_name = tc.constraint_name AND ccu.table_schema = tc.table_schema WHERE tc.constraint_type = 'FOREIGN KEY' AND tc.table_schema = 'public';",
    )
}

/// The text of the foreign-key enumeration query.
pub open spec fn spec_foreign_keys_query() -> Seq<char> {
    "SELECT tc.table_name AS referencing_table, kcu.column_name AS referencing_column, ccu.table_name AS referenced_table, ccu.column_name AS referenced_column FROM information_schema.table_constraints AS tc JOIN information_schema.key_column_usage AS kcu ON tc.constraint_name = kcu.constraint_name AND tc.table_schema = kcu.table_schema JOIN information_schema.constraint_column_usage AS ccu ON ccu.constraint_name = tc.constraint_name AND ccu.table_schema = tc.table_schema WHERE tc.constraint_type = 'FOREIGN KEY' AND tc.table_schema = 'public';"@
}

/// Builds the schema graph once from the two catalog queries. Failure of
/// either query — or a catalog row without its text cells — is fatal and
/// yields the corresponding error; no partial schema is returned. The
/// graph, when returned, has unique table names and reference keys.
pub fn get_schema<D: Database>(db: &mut D) -> (r: Result<SchemaGraph, String>)
    ensures
        r matches Ok(g) ==> g.wf(),
        r matches Err(e) ==> e@ == "Could not get columns"@ || e@
            == "Could not get foreign key info"@,
{
    let cols_rs = match db.fetch(columns_query().as_str()) {
        Ok(rs) => rs,
        Err(_) => {
            return Err(String::from_str("Could not get columns"));
        },
    };
    let cols = match column_rows(&cols_rs) {
        Some(v) => v,
        None => {
            return Err(String::from_str("Could not get columns"));
        },
    };
    let fks_rs = match db.fetch(foreign_keys_query().as_str()) {
        Ok(rs) => rs,
        Err(_) => {
            return Err(String::from_str("Could not get foreign key info"));
        },
    };
    let fks = match fk_rows(&fks_rs) {
        Some(v) => v,
        None => {
            return Err(String::from_str("Could not get foreign key info"));
        },
    };
    Ok(build_schema(&cols, &fks))
}

} // verus!
