//! Encoding: records to a column-major batch.

use vstd::prelude::*;
use vstd::arithmetic::div_mod::lemma_fundamental_div_mod_converse;
use crate::batch::{
    boolean_entry, column_of, float32_entry, float64_entry, int32_entry, int64_entry, text_view,
    utf8_entry, vector_entry, vector_values, batch_of, Batch, BatchColumn, Column,
};
use crate::cell::{cell_fits, coerce, coerced, lemma_coerced_fits, Cell, CellView};
use crate::error::{Fault, TranscodeError};
use crate::schema::{ColumnSchema, FieldDef, FieldType, FieldView};
use crate::value::{find_field, lookup, Key, Value};

verus! {

/// The mathematical value of a sequence of records.
pub open spec fn records_view(rs: Seq<Vec<(Key, Value)>>) -> Seq<Seq<(Key, Value)>> {
    rs.map_values(|r: Vec<(Key, Value)>| r@)
}

/// The mathematical value of rows of cells.
pub open spec fn cells_view(rows: Seq<Vec<Cell>>) -> Seq<Seq<CellView>> {
    rows.map_values(|r: Vec<Cell>| r@.map_values(|c: Cell| c@))
}

/// The cell that record `r`, at index `i`, gives column `f`: its value for
/// the field, coerced to the column's type.
pub open spec fn field_cell(r: Seq<(Key, Value)>, i: nat, f: FieldView) -> Result<CellView, Fault> {
    match lookup(r, f.name) {
        None => Err(Fault::MissingField(i, f.name)),
        Some(v) => coerced(i, f.name, f.field_type, v),
    }
}

/// The cells that record `r`, at index `i`, gives the columns `fields`, or
/// the error of the first column that it cannot fill.
pub open spec fn row_cells(r: Seq<(Key, Value)>, i: nat, fields: Seq<FieldView>) -> Result<
    Seq<CellView>,
    Fault,
>
    decreases fields.len(),
{
    if fields.len() == 0 {
        Ok(Seq::empty())
    } else {
        match row_cells(r, i, fields.drop_last()) {
            Err(e) => Err(e),
            Ok(cs) => match field_cell(r, i, fields.last()) {
                Err(e) => Err(e),
                Ok(c) => Ok(cs.push(c)),
            },
        }
    }
}

/// The rows of cells that records `rs` give the columns `fields`, or the
/// error of the first record that fails, in record order.
pub open spec fn encoded(rs: Seq<Seq<(Key, Value)>>, fields: Seq<FieldView>) -> Result<
    Seq<Seq<CellView>>,
    Fault,
>
    decreases rs.len(),
{
    if rs.len() == 0 {
        Ok(Seq::empty())
    } else {
        match encoded(rs.drop_last(), fields) {
            Err(e) => Err(e),
            Ok(rows) => match row_cells(rs.last(), (rs.len() - 1) as nat, fields) {
                Err(e) => Err(e),
                Ok(row) => Ok(rows.push(row)),
            },
        }
    }
}

/// The cells of a record that fills every column: one per column, each the
/// coerced field value, each fitting its column's type.
pub proof fn lemma_row_cells(r: Seq<(Key, Value)>, i: nat, fields: Seq<FieldView>)
    ensures
        row_cells(r, i, fields) matches Ok(cs) ==> {
            &&& cs.len() == fields.len()
            &&& forall|j: int|
                0 <= j < fields.len() ==> field_cell(r, i, #[trigger] fields[j]) == Ok::<
                    CellView,
                    Fault,
                >(cs[j]) && cell_fits(cs[j], fields[j].field_type)
        },
    decreases fields.len(),
{
    if fields.len() > 0 {
        let prefix = fields.drop_last();
        lemma_row_cells(r, i, prefix);
        let f = fields.last();
        lemma_coerced_fits(i, f.name, f.field_type, lookup(r, f.name)->Some_0);
        if let Ok(cs) = row_cells(r, i, fields) {
            assert forall|j: int| 0 <= j < fields.len() implies field_cell(r, i, #[trigger] fields[j])
                == Ok::<CellView, Fault>(cs[j]) && cell_fits(cs[j], fields[j].field_type) by {
                if j < fields.len() - 1 {
                    assert(fields[j] == prefix[j]);
                }
            }
        }
    }
}

/// The rows of records that all encode: one per record, each the record's
/// cells.
pub proof fn lemma_encoded(rs: Seq<Seq<(Key, Value)>>, fields: Seq<FieldView>)
    ensures
        encoded(rs, fields) matches Ok(rows) ==> {
            &&& rows.len() == rs.len()
            &&& forall|i: int|
                0 <= i < rs.len() ==> row_cells(#[trigger] rs[i], i as nat, fields) == Ok::<
                    Seq<CellView>,
                    Fault,
                >(rows[i])
        },
    decreases rs.len(),
{
    if rs.len() > 0 {
        let prefix = rs.drop_last();
        lemma_encoded(prefix, fields);
        if let Ok(rows) = encoded(rs, fields) {
            assert forall|i: int| 0 <= i < rs.len() implies row_cells(#[trigger] rs[i], i as nat, fields)
                == Ok::<Seq<CellView>, Fault>(rows[i]) by {
                if i < rs.len() - 1 {
                    assert(rs[i] == prefix[i]);
                }
            }
        }
    }
}

proof fn lemma_row_error_persists(r: Seq<(Key, Value)>, i: nat, fields: Seq<FieldView>, k: int)
    requires
        0 <= k <= fields.len(),
        row_cells(r, i, fields.take(k)) is Err,
    ensures
        row_cells(r, i, fields) == row_cells(r, i, fields.take(k)),
    decreases fields.len() - k,
{
    if k < fields.len() {
        assert(fields.take(k + 1).drop_last() =~= fields.take(k));
        lemma_row_error_persists(r, i, fields, k + 1);
    } else {
        assert(fields.take(k) =~= fields);
    }
}

proof fn lemma_encode_error_persists(rs: Seq<Seq<(Key, Value)>>, fields: Seq<FieldView>, k: int)
    requires
        0 <= k <= rs.len(),
        encoded(rs.take(k), fields) is Err,
    ensures
        encoded(rs, fields) == encoded(rs.take(k), fields),
    decreases rs.len() - k,
{
    if k < rs.len() {
        assert(rs.take(k + 1).drop_last() =~= rs.take(k));
        lemma_encode_error_persists(rs, fields, k + 1);
    } else {
        assert(rs.take(k) =~= rs);
    }
}

/// Reads the cells that record `r`, at index `i`, gives the columns of
/// `schema`.
fn encode_row(r: &Vec<(Key, Value)>, i: usize, schema: &ColumnSchema) -> (res: Result<
    Vec<Cell>,
    TranscodeError,
>)
    ensures
        match res {
            Ok(cs) => row_cells(r@, i as nat, schema@) == Ok::<Seq<CellView>, Fault>(
                cs@.map_values(|c: Cell| c@),
            ),
            Err(e) => row_cells(r@, i as nat, schema@) == Err::<Seq<CellView>, Fault>(e@),
        },
{
    let m = schema.fields.len();
    let mut cells: Vec<Cell> = Vec::new();
    let mut j: usize = 0;
    assert(schema@.take(0).len() == 0);
    assert(cells@.map_values(|c: Cell| c@) =~= Seq::<CellView>::empty());
    while j < m
        invariant
            m == schema.fields@.len(),
            m == schema@.len(),
            j <= m,
            row_cells(r@, i as nat, schema@.take(j as int)) == Ok::<Seq<CellView>, Fault>(
                cells@.map_values(|c: Cell| c@),
            ),
        decreases m - j,
    {
        let f = &schema.fields[j];
        assert(schema@.take(j + 1).drop_last() =~= schema@.take(j as int));
        assert(schema@.take(j + 1).last() == f@);
        let cell = match find_field(r, &f.name) {
            None => Err(TranscodeError::MissingField(i, f.name.clone())),
            Some(k) => coerce(i, &f.name, f.field_type, &r[k].1),
        };
        match cell {
            Ok(c) => {
                cells.push(c);
                assert(cells@.map_values(|c: Cell| c@) =~= row_cells(
                    r@,
                    i as nat,
                    schema@.take(j + 1),
                )->Ok_0);
            },
            Err(e) => {
                proof {
                    lemma_row_error_persists(r@, i as nat, schema@, j + 1);
                }
                assert(schema@.take(m as int) =~= schema@);
                return Err(e);
            },
        }
        j = j + 1;
    }
    assert(schema@.take(m as int) =~= schema@);
    Ok(cells)
}

/// The scalar columns, each built from entry `j` of every row.
fn utf8_column(rows: &Vec<Vec<Cell>>, j: usize) -> (c: Column)
    requires
        forall|i: int| 0 <= i < rows@.len() ==> j < (#[trigger] rows@[i])@.len(),
    ensures
        c@ == column_of(FieldType::Utf8, cells_view(rows@), j as int),
{
    let n = rows.len();
    let mut v: Vec<Option<String>> = Vec::new();
    let mut i: usize = 0;
    while i < n
        invariant
            n == rows@.len(),
            i <= n,
            v@.len() == i,
            forall|k: int| 0 <= k < rows@.len() ==> j < (#[trigger] rows@[k])@.len(),
            forall|k: int| 0 <= k < i ==> text_view(v@[k]) == utf8_entry(#[trigger] rows@[k]@[j as int]@),
        decreases n - i,
    {
        let x = match &rows[i][j] {
            Cell::Utf8(x) => Some(x.clone()),
            _ => None,
        };
        v.push(x);
        i = i + 1;
    }
    let ghost cells = cells_view(rows@);
    assert(v@.map_values(|o: Option<String>| text_view(o)) =~= Seq::new(
        n as nat,
        |k: int| utf8_entry(cells[k][j as int]),
    ));
    Column::Utf8(v)
}

fn float32_column(rows: &Vec<Vec<Cell>>, j: usize) -> (c: Column)
    requires
        forall|i: int| 0 <= i < rows@.len() ==> j < (#[trigger] rows@[i])@.len(),
    ensures
        c@ == column_of(FieldType::Float32, cells_view(rows@), j as int),
{
    let n = rows.len();
    let mut v: Vec<Option<u32>> = Vec::new();
    let mut i: usize = 0;
    while i < n
        invariant
            n == rows@.len(),
            i <= n,
            v@.len() == i,
            forall|k: int| 0 <= k < rows@.len() ==> j < (#[trigger] rows@[k])@.len(),
            forall|k: int| 0 <= k < i ==> v@[k] == float32_entry(#[trigger] rows@[k]@[j as int]@),
        decreases n - i,
    {
        let x = match &rows[i][j] {
            Cell::Float32(x) => Some(*x),
            _ => None,
        };
        v.push(x);
        i = i + 1;
    }
    let ghost cells = cells_view(rows@);
    assert(v@ =~= Seq::new(n as nat, |k: int| float32_entry(cells[k][j as int])));
    Column::Float32(v)
}

fn float64_column(rows: &Vec<Vec<Cell>>, j: usize) -> (c: Column)
    requires
        forall|i: int| 0 <= i < rows@.len() ==> j < (#[trigger] rows@[i])@.len(),
    ensures
        c@ == column_of(FieldType::Float64, cells_view(rows@), j as int),
{
    let n = rows.len();
    let mut v: Vec<Option<u64>> = Vec::new();
    let mut i: usize = 0;
    while i < n
        invariant
            n == rows@.len(),
            i <= n,
            v@.len() == i,
            forall|k: int| 0 <= k < rows@.len() ==> j < (#[trigger] rows@[k])@.len(),
            forall|k: int| 0 <= k < i ==> v@[k] == float64_entry(#[trigger] rows@[k]@[j as int]@),
        decreases n - i,
    {
        let x = match &rows[i][j] {
            Cell::Float64(x) => Some(*x),
            _ => None,
        };
        v.push(x);
        i = i + 1;
    }
    let ghost cells = cells_view(rows@);
    assert(v@ =~= Seq::new(n as nat, |k: int| float64_entry(cells[k][j as int])));
    Column::Float64(v)
}

fn int32_column(rows: &Vec<Vec<Cell>>, j: usize) -> (c: Column)
    requires
        forall|i: int| 0 <= i < rows@.len() ==> j < (#[trigger] rows@[i])@.len(),
    ensures
        c@ == column_of(FieldType::Int32, cells_view(rows@), j as int),
{
    let n = rows.len();
    let mut v: Vec<Option<i32>> = Vec::new();
    let mut i: usize = 0;
    while i < n
        invariant
            n == rows@.len(),
            i <= n,
            v@.len() == i,
            forall|k: int| 0 <= k < rows@.len() ==> j < (#[trigger] rows@[k])@.len(),
            forall|k: int| 0 <= k < i ==> v@[k] == int32_entry(#[trigger] rows@[k]@[j as int]@),
        decreases n - i,
    {
        let x = match &rows[i][j] {
            Cell::Int32(x) => Some(*x),
            _ => None,
        };
        v.push(x);
        i = i + 1;
    }
    let ghost cells = cells_view(rows@);
    assert(v@ =~= Seq::new(n as nat, |k: int| int32_entry(cells[k][j as int])));
    Column::Int32(v)
}

fn int64_column(rows: &Vec<Vec<Cell>>, j: usize) -> (c: Column)
    requires
        forall|i: int| 0 <= i < rows@.len() ==> j < (#[trigger] rows@[i])@.len(),
    ensures
        c@ == column_of(FieldType::Int64, cells_view(rows@), j as int),
{
    let n = rows.len();
    let mut v: Vec<Option<i64>> = Vec::new();
    let mut i: usize = 0;
    while i < n
        invariant
            n == rows@.len(),
            i <= n,
            v@.len() == i,
            forall|k: int| 0 <= k < rows@.len() ==> j < (#[trigger] rows@[k])@.len(),
            forall|k: int| 0 <= k < i ==> v@[k] == int64_entry(#[trigger] rows@[k]@[j as int]@),
        decreases n - i,
    {
        let x = match &rows[i][j] {
            Cell::Int64(x) => Some(*x),
            _ => None,
        };
        v.push(x);
        i = i + 1;
    }
    let ghost cells = cells_view(rows@);
    assert(v@ =~= Seq::new(n as nat, |k: int| int64_entry(cells[k][j as int])));
    Column::Int64(v)
}

fn boolean_column(rows: &Vec<Vec<Cell>>, j: usize) -> (c: Column)
    requires
        forall|i: int| 0 <= i < rows@.len() ==> j < (#[trigger] rows@[i])@.len(),
    ensures
        c@ == column_of(FieldType::Boolean, cells_view(rows@), j as int),
{
    let n = rows.len();
    let mut v: Vec<Option<bool>> = Vec::new();
    let mut i: usize = 0;
    while i < n
        invariant
            n == rows@.len(),
            i <= n,
            v@.len() == i,
            forall|k: int| 0 <= k < rows@.len() ==> j < (#[trigger] rows@[k])@.len(),
            forall|k: int| 0 <= k < i ==> v@[k] == boolean_entry(#[trigger] rows@[k]@[j as int]@),
        decreases n - i,
    {
        let x = match &rows[i][j] {
            Cell::Boolean(x) => Some(*x),
            _ => None,
        };
        v.push(x);
        i = i + 1;
    }
    let ghost cells = cells_view(rows@);
    assert(v@ =~= Seq::new(n as nat, |k: int| boolean_entry(cells[k][j as int])));
    Column::Boolean(v)
}

fn vector_column(rows: &Vec<Vec<Cell>>, j: usize, d: usize) -> (c: Column)
    requires
        d >= 1,
        forall|i: int|
            0 <= i < rows@.len() ==> j < (#[trigger] rows@[i])@.len() && cell_fits(
                rows@[i]@[j as int]@,
                FieldType::Vector(d),
            ),
    ensures
        c@ == column_of(FieldType::Vector(d), cells_view(rows@), j as int),
{
    let ghost cells = cells_view(rows@);
    let n = rows.len();
    let mut values: Vec<u32> = Vec::new();
    let mut validity: Vec<bool> = Vec::new();
    let mut i: usize = 0;
    while i < n
        invariant
            n == rows@.len(),
            cells == cells_view(rows@),
            d >= 1,
            i <= n,
            forall|k: int|
                0 <= k < rows@.len() ==> j < (#[trigger] rows@[k])@.len() && cell_fits(
                    rows@[k]@[j as int]@,
                    FieldType::Vector(d),
                ),
            values@.len() == i * d,
            forall|k: int|
                0 <= k < i * d ==> values@[k] == vector_entry(
                    cells[k / (d as int)][j as int],
                    k % (d as int),
                ),
            validity@.len() == i,
            forall|k: int| 0 <= k < i ==> validity@[k] == (cells[k][j as int] is Vector),
        decreases n - i,
    {
        let cell = &rows[i][j];
        assert(cells[i as int][j as int] == cell@);
        let mut m: usize = 0;
        while m < d
            invariant
                0 <= i < n,
                cells == cells_view(rows@),
                cells[i as int][j as int] == cell@,
                cell_fits(cell@, FieldType::Vector(d)),
                d >= 1,
                m <= d,
                values@.len() == i * d + m,
                forall|k: int|
                    0 <= k < i * d + m ==> values@[k] == vector_entry(
                        cells[k / (d as int)][j as int],
                        k % (d as int),
                    ),
            decreases d - m,
        {
            let x = match cell {
                Cell::Vector(xs) => xs[m],
                _ => 0,
            };
            proof {
                lemma_fundamental_div_mod_converse(i * d + m, d as int, i as int, m as int);
            }
            values.push(x);
            m = m + 1;
        }
        assert((i + 1) * d == i * d + d) by (nonlinear_arith);
        let valid = match cell {
            Cell::Vector(_) => true,
            _ => false,
        };
        validity.push(valid);
        i = i + 1;
    }
    assert(values@ =~= vector_values(cells, j as int, d as nat));
    assert(validity@ =~= Seq::new(n as nat, |k: int| cells[k][j as int] is Vector));
    Column::Vector { dimension: d, values, validity }
}

/// Builds the column of type `t` from entry `j` of every row.
fn build_column(t: FieldType, rows: &Vec<Vec<Cell>>, j: usize) -> (c: Column)
    requires
        t.recognized(),
        forall|i: int|
            0 <= i < rows@.len() ==> j < (#[trigger] rows@[i])@.len() && cell_fits(
                rows@[i]@[j as int]@,
                t,
            ),
    ensures
        c@ == column_of(t, cells_view(rows@), j as int),
{
    match t {
        FieldType::Utf8 => utf8_column(rows, j),
        FieldType::Float32 => float32_column(rows, j),
        FieldType::Float64 => float64_column(rows, j),
        FieldType::Int32 => int32_column(rows, j),
        FieldType::Int64 => int64_column(rows, j),
        FieldType::Boolean => boolean_column(rows, j),
        FieldType::Vector(d) => vector_column(rows, j, d),
        FieldType::Other => Column::Other,
    }
}

/// Encodes records into a batch that conforms to `schema`.
///
/// Every column of the schema must have an entry in every record, under its
/// symbol or its plain string; other entries are ignored. A null entry
/// becomes a null cell; any other value is coerced to the column's type.
/// The first record, and within it the first column, that cannot be encoded
/// decides the error, and then no batch is built.
pub fn encode(records: &Vec<Vec<(Key, Value)>>, schema: &ColumnSchema) -> (r: Result<
    Batch,
    TranscodeError,
>)
    requires
        schema.wf(),
    ensures
        match r {
            Ok(b) => encoded(records_view(records@), schema@) is Ok && b@ == batch_of(
                schema@,
                encoded(records_view(records@), schema@)->Ok_0,
            ),
            Err(e) => encoded(records_view(records@), schema@) == Err::<Seq<Seq<CellView>>, Fault>(
                e@,
            ),
        },
{
    let ghost rs = records_view(records@);
    let n = records.len();
    let m = schema.fields.len();
    let mut rows: Vec<Vec<Cell>> = Vec::new();
    let mut i: usize = 0;
    assert(rs.take(0).len() == 0);
    assert(cells_view(rows@) =~= Seq::<Seq<CellView>>::empty());
    while i < n
        invariant
            n == records@.len(),
            rs == records_view(records@),
            m == schema@.len(),
            schema.wf(),
            i <= n,
            encoded(rs.take(i as int), schema@) == Ok::<Seq<Seq<CellView>>, Fault>(
                cells_view(rows@),
            ),
            rows@.len() == i,
            forall|k: int|
                0 <= k < i ==> (#[trigger] rows@[k])@.len() == m && forall|j: int|
                    0 <= j < m ==> cell_fits(rows@[k]@[j]@, schema@[j].field_type),
        decreases n - i,
    {
        assert(rs.take(i + 1).drop_last() =~= rs.take(i as int));
        assert(rs.take(i + 1).last() == records@[i as int]@);
        match encode_row(&records[i], i, schema) {
            Ok(row) => {
                proof {
                    lemma_row_cells(records@[i as int]@, i as nat, schema@);
                    assert forall|j: int| 0 <= j < m implies cell_fits(
                        row@[j]@,
                        schema@[j].field_type,
                    ) by {
                        assert(row@.map_values(|c: Cell| c@)[j] == row@[j]@);
                    }
                }
                rows.push(row);
                assert(cells_view(rows@) =~= encoded(rs.take(i + 1), schema@)->Ok_0);
            },
            Err(e) => {
                proof {
                    lemma_encode_error_persists(rs, schema@, i + 1);
                }
                assert(rs.take(n as int) =~= rs);
                return Err(e);
            },
        }
        i = i + 1;
    }
    assert(rs.take(n as int) =~= rs);
    let mut columns: Vec<BatchColumn> = Vec::new();
    let mut j: usize = 0;
    while j < m
        invariant
            m == schema.fields@.len(),
            m == schema@.len(),
            schema.wf(),
            rows@.len() == n,
            forall|k: int|
                0 <= k < n ==> (#[trigger] rows@[k])@.len() == m && forall|j: int|
                    0 <= j < m ==> cell_fits(rows@[k]@[j]@, schema@[j].field_type),
            j <= m,
            columns@.len() == j,
            forall|k: int|
                0 <= k < j ==> (#[trigger] columns@[k]).field@ == schema@[k] && columns@[k].data@
                    == column_of(schema@[k].field_type, cells_view(rows@), k),
        decreases m - j,
    {
        let f = &schema.fields[j];
        assert(f@ == schema@[j as int]);
        let data = build_column(f.field_type, &rows, j);
        columns.push(
            BatchColumn {
                field: FieldDef { name: f.name.clone(), field_type: f.field_type, nullable: f.nullable },
                data,
            },
        );
        j = j + 1;
    }
    let b = Batch { num_rows: n, columns };
    assert(b@.columns =~= batch_of(schema@, cells_view(rows@)).columns);
    Ok(b)
}

} // verus!
