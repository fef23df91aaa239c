//! Column-major batches.

use vstd::prelude::*;
use crate::cell::CellView;
use crate::schema::{FieldDef, FieldType, FieldView};

verus! {

/// The values of one column, one entry per row. `None` is a null entry.
/// Floats are held as their bit patterns.
#[derive(Clone, Debug, PartialEq)]
pub enum Column {
    Utf8(Vec<Option<String>>),
    Float32(Vec<Option<u32>>),
    Float64(Vec<Option<u64>>),
    Int32(Vec<Option<i32>>),
    Int64(Vec<Option<i64>>),
    Boolean(Vec<Option<bool>>),
    /// Fixed-width vectors: row `i` occupies
    /// `values[i * dimension .. (i + 1) * dimension]`, and `validity[i]`
    /// tells whether it holds a vector or is null. A null row keeps its
    /// window, filled with zeros.
    Vector { dimension: usize, values: Vec<u32>, validity: Vec<bool> },
    /// A column of a type this library does not read.
    Other,
}

/// The mathematical value of a [`Column`].
pub enum ColumnView {
    Utf8(Seq<Option<Seq<char>>>),
    Float32(Seq<Option<u32>>),
    Float64(Seq<Option<u64>>),
    Int32(Seq<Option<i32>>),
    Int64(Seq<Option<i64>>),
    Boolean(Seq<Option<bool>>),
    Vector { dimension: nat, values: Seq<u32>, validity: Seq<bool> },
    Other,
}

pub open spec fn text_view(o: Option<String>) -> Option<Seq<char>> {
    match o {
        Some(s) => Some(s@),
        None => None,
    }
}

impl View for Column {
    type V = ColumnView;

    open spec fn view(&self) -> ColumnView {
        match self {
            Column::Utf8(v) => ColumnView::Utf8(v@.map_values(|o: Option<String>| text_view(o))),
            Column::Float32(v) => ColumnView::Float32(v@),
            Column::Float64(v) => ColumnView::Float64(v@),
            Column::Int32(v) => ColumnView::Int32(v@),
            Column::Int64(v) => ColumnView::Int64(v@),
            Column::Boolean(v) => ColumnView::Boolean(v@),
            Column::Vector { dimension, values, validity } => ColumnView::Vector {
                dimension: *dimension as nat,
                values: values@,
                validity: validity@,
            },
            Column::Other => ColumnView::Other,
        }
    }
}

/// One column of a batch with the field it belongs to.
#[derive(Clone, Debug, PartialEq)]
pub struct BatchColumn {
    pub field: FieldDef,
    pub data: Column,
}

/// Records in column-major form: each column holds one entry per row.
#[derive(Clone, Debug, PartialEq)]
pub struct Batch {
    pub num_rows: usize,
    pub columns: Vec<BatchColumn>,
}

/// The mathematical value of a [`Batch`].
pub struct BatchView {
    pub num_rows: nat,
    pub columns: Seq<(FieldView, ColumnView)>,
}

impl View for Batch {
    type V = BatchView;

    open spec fn view(&self) -> BatchView {
        BatchView {
            num_rows: self.num_rows as nat,
            columns: self.columns@.map_values(|c: BatchColumn| (c.field@, c.data@)),
        }
    }
}

/// Whether column `c` is laid out as type `t` demands for `n` rows.
pub open spec fn column_fits(c: ColumnView, t: FieldType, n: nat) -> bool {
    match (c, t) {
        (ColumnView::Utf8(v), FieldType::Utf8) => v.len() == n,
        (ColumnView::Float32(v), FieldType::Float32) => v.len() == n,
        (ColumnView::Float64(v), FieldType::Float64) => v.len() == n,
        (ColumnView::Int32(v), FieldType::Int32) => v.len() == n,
        (ColumnView::Int64(v), FieldType::Int64) => v.len() == n,
        (ColumnView::Boolean(v), FieldType::Boolean) => v.len() == n,
        (ColumnView::Vector { dimension, values, validity }, FieldType::Vector(d)) => {
            &&& dimension == d
            &&& validity.len() == n
            &&& values.len() == n * d
        },
        (_, FieldType::Other) => true,
        _ => false,
    }
}

/// The cell that column `c` holds at row `i`.
pub open spec fn cell_at(c: ColumnView, i: int) -> CellView {
    match c {
        ColumnView::Utf8(v) => match v[i] {
            Some(s) => CellView::Utf8(s),
            None => CellView::Null,
        },
        ColumnView::Float32(v) => match v[i] {
            Some(x) => CellView::Float32(x),
            None => CellView::Null,
        },
        ColumnView::Float64(v) => match v[i] {
            Some(x) => CellView::Float64(x),
            None => CellView::Null,
        },
        ColumnView::Int32(v) => match v[i] {
            Some(x) => CellView::Int32(x),
            None => CellView::Null,
        },
        ColumnView::Int64(v) => match v[i] {
            Some(x) => CellView::Int64(x),
            None => CellView::Null,
        },
        ColumnView::Boolean(v) => match v[i] {
            Some(x) => CellView::Boolean(x),
            None => CellView::Null,
        },
        ColumnView::Vector { dimension, values, validity } => if validity[i] {
            CellView::Vector(values.subrange(i * dimension, i * dimension + dimension))
        } else {
            CellView::Null
        },
        ColumnView::Other => CellView::Null,
    }
}

/// Entry `m` of the window that cell `c` fills in a vector column.
pub open spec fn vector_entry(c: CellView, m: int) -> u32 {
    match c {
        CellView::Vector(v) => v[m],
        _ => 0,
    }
}

/// The entry that a cell gives a scalar column of each type: its value, or
/// `None` for a null cell.
pub open spec fn utf8_entry(c: CellView) -> Option<Seq<char>> {
    match c {
        CellView::Utf8(s) => Some(s),
        _ => None,
    }
}

pub open spec fn float32_entry(c: CellView) -> Option<u32> {
    match c {
        CellView::Float32(x) => Some(x),
        _ => None,
    }
}

pub open spec fn float64_entry(c: CellView) -> Option<u64> {
    match c {
        CellView::Float64(x) => Some(x),
        _ => None,
    }
}

pub open spec fn int32_entry(c: CellView) -> Option<i32> {
    match c {
        CellView::Int32(x) => Some(x),
        _ => None,
    }
}

pub open spec fn int64_entry(c: CellView) -> Option<i64> {
    match c {
        CellView::Int64(x) => Some(x),
        _ => None,
    }
}

pub open spec fn boolean_entry(c: CellView) -> Option<bool> {
    match c {
        CellView::Boolean(x) => Some(x),
        _ => None,
    }
}

/// The flat values of a vector column of dimension `d` that holds entry
/// `j` of every row of `cells`.
pub open spec fn vector_values(cells: Seq<Seq<CellView>>, j: int, d: nat) -> Seq<u32> {
    Seq::new(cells.len() * d, |k: int| vector_entry(cells[k / (d as int)][j], k % (d as int)))
}

/// The column of type `t` that holds entry `j` of every row of `cells`.
pub open spec fn column_of(t: FieldType, cells: Seq<Seq<CellView>>, j: int) -> ColumnView {
    let n = cells.len();
    match t {
        FieldType::Utf8 => ColumnView::Utf8(Seq::new(n, |i: int| utf8_entry(cells[i][j]))),
        FieldType::Float32 => ColumnView::Float32(Seq::new(n, |i: int| float32_entry(cells[i][j]))),
        FieldType::Float64 => ColumnView::Float64(Seq::new(n, |i: int| float64_entry(cells[i][j]))),
        FieldType::Int32 => ColumnView::Int32(Seq::new(n, |i: int| int32_entry(cells[i][j]))),
        FieldType::Int64 => ColumnView::Int64(Seq::new(n, |i: int| int64_entry(cells[i][j]))),
        FieldType::Boolean => ColumnView::Boolean(Seq::new(n, |i: int| boolean_entry(cells[i][j]))),
        FieldType::Vector(d) => ColumnView::Vector {
            dimension: d as nat,
            values: vector_values(cells, j, d as nat),
            validity: Seq::new(n, |i: int| cells[i][j] is Vector),
        },
        FieldType::Other => ColumnView::Other,
    }
}

/// The batch that holds rows `cells` under schema `fields`.
pub open spec fn batch_of(fields: Seq<FieldView>, cells: Seq<Seq<CellView>>) -> BatchView {
    BatchView {
        num_rows: cells.len(),
        columns: Seq::new(fields.len(), |j: int| (fields[j], column_of(fields[j].field_type, cells, j))),
    }
}

} // verus!
