//! Decoding: a column-major batch back to records.

use vstd::prelude::*;
use crate::batch::{cell_at, column_fits, text_view, Batch, Column, ColumnView};
use crate::cell::{Cell, CellView};
use crate::error::{Fault, TranscodeError};
use crate::schema::{FieldType, FieldView};

verus! {

/// The mathematical value of a decoded record.
pub open spec fn record_view(r: Seq<(String, Cell)>) -> Seq<(Seq<char>, CellView)> {
    r.map_values(|p: (String, Cell)| (p.0@, p.1@))
}

/// The mathematical value of a sequence of decoded records.
pub open spec fn records_out_view(rs: Seq<Vec<(String, Cell)>>) -> Seq<Seq<(Seq<char>, CellView)>> {
    rs.map_values(|r: Vec<(String, Cell)>| record_view(r@))
}

/// Column `j` is the first column of `cols` that is not laid out as its
/// type demands for `n` rows.
pub open spec fn first_corrupt(cols: Seq<(FieldView, ColumnView)>, n: nat, j: int) -> bool {
    &&& 0 <= j < cols.len()
    &&& !column_fits(cols[j].1, cols[j].0.field_type, n)
    &&& forall|k: int| 0 <= k < j ==> column_fits(#[trigger] cols[k].1, cols[k].0.field_type, n)
}

/// The record that row `i` of columns `cols` holds: the name and the cell of
/// each column whose type this library reads, in column order.
pub open spec fn row_at(cols: Seq<(FieldView, ColumnView)>, i: int) -> Seq<(Seq<char>, CellView)>
    decreases cols.len(),
{
    if cols.len() == 0 {
        Seq::empty()
    } else {
        let prefix = row_at(cols.drop_last(), i);
        let (f, c) = cols.last();
        if f.field_type is Other {
            prefix
        } else {
            prefix.push((f.name, cell_at(c, i)))
        }
    }
}

/// The records that batch `b` holds, one per row, or the error for its first
/// column that is not laid out as its type demands.
pub open spec fn decoded(b: crate::batch::BatchView) -> Result<Seq<Seq<(Seq<char>, CellView)>>, Fault> {
    if exists|j: int| first_corrupt(b.columns, b.num_rows, j) {
        let j = choose|j: int| first_corrupt(b.columns, b.num_rows, j);
        Err(Fault::CorruptBatch(b.columns[j].0.name))
    } else {
        Ok(Seq::new(b.num_rows, |i: int| row_at(b.columns, i)))
    }
}

proof fn lemma_first_corrupt_unique(cols: Seq<(FieldView, ColumnView)>, n: nat, j: int, k: int)
    requires
        first_corrupt(cols, n, j),
        first_corrupt(cols, n, k),
    ensures
        j == k,
{
    if j < k {
        assert(column_fits(cols[j].1, cols[j].0.field_type, n));
    } else if k < j {
        assert(column_fits(cols[k].1, cols[k].0.field_type, n));
    }
}

fn column_is_sound(c: &Column, t: FieldType, n: usize) -> (r: bool)
    ensures
        r == column_fits(c@, t, n as nat),
{
    match t {
        FieldType::Utf8 => match c {
            Column::Utf8(v) => {
                assert(v@.map_values(|o: Option<String>| text_view(o)).len() == v@.len());
                v.len() == n
            },
            _ => false,
        },
        FieldType::Float32 => match c {
            Column::Float32(v) => v.len() == n,
            _ => false,
        },
        FieldType::Float64 => match c {
            Column::Float64(v) => v.len() == n,
            _ => false,
        },
        FieldType::Int32 => match c {
            Column::Int32(v) => v.len() == n,
            _ => false,
        },
        FieldType::Int64 => match c {
            Column::Int64(v) => v.len() == n,
            _ => false,
        },
        FieldType::Boolean => match c {
            Column::Boolean(v) => v.len() == n,
            _ => false,
        },
        FieldType::Vector(d) => match c {
            Column::Vector { dimension, values, validity } => {
                if *dimension != d || validity.len() != n {
                    false
                } else {
                    let len = values.len();
                    match n.checked_mul(d) {
                        Some(total) => len == total,
                        None => false,
                    }
                }
            },
            _ => false,
        },
        FieldType::Other => true,
    }
}

/// The cell that a sound column of a readable type holds at row `i`.
fn read_cell(c: &Column, t: FieldType, n: usize, i: usize) -> (r: Cell)
    requires
        column_fits(c@, t, n as nat),
        !(t is Other),
        i < n,
    ensures
        r@ == cell_at(c@, i as int),
{
    match c {
        Column::Utf8(v) => match &v[i] {
            Some(s) => Cell::Utf8(s.clone()),
            None => Cell::Null,
        },
        Column::Float32(v) => match v[i] {
            Some(x) => Cell::Float32(x),
            None => Cell::Null,
        },
        Column::Float64(v) => match v[i] {
            Some(x) => Cell::Float64(x),
            None => Cell::Null,
        },
        Column::Int32(v) => match v[i] {
            Some(x) => Cell::Int32(x),
            None => Cell::Null,
        },
        Column::Int64(v) => match v[i] {
            Some(x) => Cell::Int64(x),
            None => Cell::Null,
        },
        Column::Boolean(v) => match v[i] {
            Some(x) => Cell::Boolean(x),
            None => Cell::Null,
        },
        Column::Vector { dimension, values, validity } => {
            if !validity[i] {
                Cell::Null
            } else {
                let d = *dimension;
                let total = values.len();
                assert((i + 1) * d <= n * d) by (nonlinear_arith)
                    requires
                        i < n,
                ;
                assert((i + 1) * d == i * d + d) by (nonlinear_arith);
                let start = i * d;
                let mut xs: Vec<u32> = Vec::new();
                let mut m: usize = 0;
                while m < d
                    invariant
                        start == i * d,
                        total == values@.len(),
                        start + d <= values@.len(),
                        m <= d,
                        xs@ =~= values@.subrange(start as int, start + m),
                    decreases d - m,
                {
                    xs.push(values[start + m]);
                    m = m + 1;
                }
                Cell::Vector(xs)
            }
        },
        Column::Other => Cell::Null,
    }
}

/// Decodes a batch into records, one per row.
///
/// Each record holds, in column order, the name and the cell of every column
/// whose type this library reads; columns of other types are skipped. A null
/// entry decodes to a null cell. A column that is not laid out as its type
/// demands makes the whole batch fail.
pub fn decode(batch: &Batch) -> (r: Result<Vec<Vec<(String, Cell)>>, TranscodeError>)
    ensures
        match r {
            Ok(rows) => decoded(batch@) is Ok && records_out_view(rows@) == decoded(batch@)->Ok_0,
            Err(e) => decoded(batch@) == Err::<Seq<Seq<(Seq<char>, CellView)>>, Fault>(e@),
        },
{
    let ghost cols = batch@.columns;
    let n = batch.num_rows;
    let m = batch.columns.len();
    let mut j: usize = 0;
    while j < m
        invariant
            cols == batch@.columns,
            m == cols.len(),
            n == batch@.num_rows,
            j <= m,
            forall|k: int| 0 <= k < j ==> column_fits(#[trigger] cols[k].1, cols[k].0.field_type, n as nat),
        decreases m - j,
    {
        let col = &batch.columns[j];
        assert(cols[j as int] == (col.field@, col.data@));
        if !column_is_sound(&col.data, col.field.field_type, n) {
            proof {
                assert(first_corrupt(cols, n as nat, j as int));
                let k = choose|k: int| first_corrupt(cols, n as nat, k);
                lemma_first_corrupt_unique(cols, n as nat, j as int, k);
            }
            return Err(TranscodeError::CorruptBatch(col.field.name.clone()));
        }
        j = j + 1;
    }
    assert(!exists|k: int| first_corrupt(cols, n as nat, k));
    let mut rows: Vec<Vec<(String, Cell)>> = Vec::new();
    let mut i: usize = 0;
    while i < n
        invariant
            cols == batch@.columns,
            m == cols.len(),
            n == batch@.num_rows,
            forall|k: int| 0 <= k < m ==> column_fits(#[trigger] cols[k].1, cols[k].0.field_type, n as nat),
            i <= n,
            rows@.len() == i,
            forall|k: int| 0 <= k < i ==> record_view((#[trigger] rows@[k])@) == row_at(cols, k),
        decreases n - i,
    {
        let mut row: Vec<(String, Cell)> = Vec::new();
        let mut j: usize = 0;
        assert(record_view(row@) =~= row_at(cols.take(0), i as int));
        while j < m
            invariant
                cols == batch@.columns,
                m == cols.len(),
                n == batch@.num_rows,
                forall|k: int| 0 <= k < m ==> column_fits(#[trigger] cols[k].1, cols[k].0.field_type, n as nat),
                i < n,
                j <= m,
                record_view(row@) == row_at(cols.take(j as int), i as int),
            decreases m - j,
        {
            let col = &batch.columns[j];
            assert(cols[j as int] == (col.field@, col.data@));
            assert(cols.take(j + 1).drop_last() =~= cols.take(j as int));
            assert(cols.take(j + 1).last() == cols[j as int]);
            let t = col.field.field_type;
            assert(column_fits(cols[j as int].1, cols[j as int].0.field_type, n as nat));
            match t {
                FieldType::Other => {},
                _ => {
                    let cell = read_cell(&col.data, t, n, i);
                    row.push((col.field.name.clone(), cell));
                    assert(record_view(row@) =~= row_at(cols.take(j + 1), i as int));
                },
            }
            j = j + 1;
        }
        assert(cols.take(m as int) =~= cols);
        rows.push(row);
        i = i + 1;
    }
    assert(records_out_view(rows@) =~= decoded(batch@)->Ok_0);
    Ok(rows)
}

/// The records that batches `bs` hold, one batch after the other, or the
/// error of the first batch that cannot be decoded.
pub open spec fn decoded_all(bs: Seq<crate::batch::BatchView>) -> Result<Seq<Seq<(Seq<char>, CellView)>>, Fault>
    decreases bs.len(),
{
    if bs.len() == 0 {
        Ok(Seq::empty())
    } else {
        match decoded_all(bs.drop_last()) {
            Err(e) => Err(e),
            Ok(rows) => match decoded(bs.last()) {
                Err(e) => Err(e),
                Ok(more) => Ok(rows + more),
            },
        }
    }
}

proof fn lemma_decode_error_persists(bs: Seq<crate::batch::BatchView>, k: int)
    requires
        0 <= k <= bs.len(),
        decoded_all(bs.take(k)) is Err,
    ensures
        decoded_all(bs) == decoded_all(bs.take(k)),
    decreases bs.len() - k,
{
    if k < bs.len() {
        assert(bs.take(k + 1).drop_last() =~= bs.take(k));
        lemma_decode_error_persists(bs, k + 1);
    } else {
        assert(bs.take(k) =~= bs);
    }
}

/// Decodes a sequence of batches into one sequence of records, the records
/// of each batch after those of the batches before it.
pub fn decode_all(batches: &Vec<Batch>) -> (r: Result<Vec<Vec<(String, Cell)>>, TranscodeError>)
    ensures
        match r {
            Ok(rows) => decoded_all(batches@.map_values(|b: Batch| b@)) is Ok && records_out_view(rows@)
                == decoded_all(batches@.map_values(|b: Batch| b@))->Ok_0,
            Err(e) => decoded_all(batches@.map_values(|b: Batch| b@)) == Err::<
                Seq<Seq<(Seq<char>, CellView)>>,
                Fault,
            >(e@),
        },
{
    let ghost bs = batches@.map_values(|b: Batch| b@);
    let n = batches.len();
    let mut out: Vec<Vec<(String, Cell)>> = Vec::new();
    let mut i: usize = 0;
    assert(bs.take(0).len() == 0);
    assert(records_out_view(out@) =~= Seq::empty());
    while i < n
        invariant
            n == batches@.len(),
            bs == batches@.map_values(|b: Batch| b@),
            i <= n,
            decoded_all(bs.take(i as int)) == Ok::<Seq<Seq<(Seq<char>, CellView)>>, Fault>(
                records_out_view(out@),
            ),
        decreases n - i,
    {
        assert(bs.take(i + 1).drop_last() =~= bs.take(i as int));
        assert(bs.take(i + 1).last() == batches@[i as int]@);
        match decode(&batches[i]) {
            Ok(rows) => {
                let mut rows = rows;
                let ghost before = out@;
                let ghost added = rows@;
                out.append(&mut rows);
                assert(records_out_view(out@) =~= records_out_view(before) + records_out_view(added));
            },
            Err(e) => {
                proof {
                    lemma_decode_error_persists(bs, i + 1);
                }
                assert(bs.take(n as int) =~= bs);
                return Err(e);
            },
        }
        i = i + 1;
    }
    assert(bs.take(n as int) =~= bs);
    Ok(out)
}

} // verus!
