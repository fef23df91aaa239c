//! Typed cells, and the coercion of a dynamic value to a column type.

use vstd::prelude::*;
use crate::error::{Fault, TranscodeError};
use crate::schema::FieldType;
use crate::value::Value;

verus! {

/// One value of one column: null, or a value of the column's type.
/// Floats are held as their bit patterns.
#[derive(Clone, Debug, PartialEq)]
pub enum Cell {
    Null,
    Utf8(String),
    Float32(u32),
    Float64(u64),
    Int32(i32),
    Int64(i64),
    Boolean(bool),
    Vector(Vec<u32>),
}

/// The mathematical value of a [`Cell`].
pub enum CellView {
    Null,
    Utf8(Seq<char>),
    Float32(u32),
    Float64(u64),
    Int32(i32),
    Int64(i64),
    Boolean(bool),
    Vector(Seq<u32>),
}

impl View for Cell {
    type V = CellView;

    open spec fn view(&self) -> CellView {
        match self {
            Cell::Null => CellView::Null,
            Cell::Utf8(s) => CellView::Utf8(s@),
            Cell::Float32(x) => CellView::Float32(*x),
            Cell::Float64(x) => CellView::Float64(*x),
            Cell::Int32(x) => CellView::Int32(*x),
            Cell::Int64(x) => CellView::Int64(*x),
            Cell::Boolean(x) => CellView::Boolean(*x),
            Cell::Vector(v) => CellView::Vector(v@),
        }
    }
}

/// Whether `c` is null or a value of type `t`.
pub open spec fn cell_fits(c: CellView, t: FieldType) -> bool {
    match c {
        CellView::Null => true,
        CellView::Utf8(_) => t == FieldType::Utf8,
        CellView::Float32(_) => t == FieldType::Float32,
        CellView::Float64(_) => t == FieldType::Float64,
        CellView::Int32(_) => t == FieldType::Int32,
        CellView::Int64(_) => t == FieldType::Int64,
        CellView::Boolean(_) => t == FieldType::Boolean,
        CellView::Vector(v) => match t {
            FieldType::Vector(d) => v.len() == d,
            _ => false,
        },
    }
}

/// Whether every entry of a list is a number.
pub open spec fn all_numbers(items: Seq<Value>) -> bool {
    forall|k: int| 0 <= k < items.len() ==> (#[trigger] items[k]) is Num
}

/// The 32-bit floats that a list of numbers narrows to.
pub open spec fn narrowed(items: Seq<Value>) -> Seq<u32> {
    Seq::new(items.len(), |k: int| items[k]->Num_0.narrow)
}

/// The cell that value `v` of field `name` in record `i` becomes in a column
/// of type `t`.
///
/// Null stays null in every column. A string column takes strings; a float
/// column takes any number, at its precision; an integer column takes exact
/// integers within its range; a boolean column takes booleans; a vector
/// column takes a list of numbers, narrowed to 32 bits, whose length is the
/// dimension.
pub open spec fn coerced(i: nat, name: Seq<char>, t: FieldType, v: Value) -> Result<CellView, Fault> {
    let mismatch = Fault::TypeMismatch(i, name, t);
    match v {
        Value::Null => Ok(CellView::Null),
        _ => match t {
            FieldType::Utf8 => match v {
                Value::Str(s) => Ok(CellView::Utf8(s@)),
                _ => Err(mismatch),
            },
            FieldType::Float32 => match v {
                Value::Num(n) => Ok(CellView::Float32(n.narrow)),
                _ => Err(mismatch),
            },
            FieldType::Float64 => match v {
                Value::Num(n) => Ok(CellView::Float64(n.wide)),
                _ => Err(mismatch),
            },
            FieldType::Int32 => match v {
                Value::Num(n) => match n.exact {
                    Some(k) => if i32::MIN <= k <= i32::MAX {
                        Ok(CellView::Int32(k as i32))
                    } else {
                        Err(mismatch)
                    },
                    None => Err(mismatch),
                },
                _ => Err(mismatch),
            },
            FieldType::Int64 => match v {
                Value::Num(n) => match n.exact {
                    Some(k) => Ok(CellView::Int64(k)),
                    None => Err(mismatch),
                },
                _ => Err(mismatch),
            },
            FieldType::Boolean => match v {
                Value::Bool(b) => Ok(CellView::Boolean(b)),
                _ => Err(mismatch),
            },
            FieldType::Vector(d) => match v {
                Value::List(items) => if !all_numbers(items@) {
                    Err(mismatch)
                } else if items@.len() != d {
                    Err(Fault::VectorDimensionMismatch(name, d as nat, items@.len()))
                } else {
                    Ok(CellView::Vector(narrowed(items@)))
                },
                _ => Err(mismatch),
            },
            FieldType::Other => Err(mismatch),
        },
    }
}

/// A coerced cell fits the column type it was coerced to.
pub proof fn lemma_coerced_fits(i: nat, name: Seq<char>, t: FieldType, v: Value)
    ensures
        coerced(i, name, t, v) matches Ok(c) ==> cell_fits(c, t),
{
}

fn narrow_list(items: &Vec<Value>) -> (r: Option<Vec<u32>>)
    ensures
        match r {
            Some(xs) => all_numbers(items@) && xs@ == narrowed(items@),
            None => !all_numbers(items@),
        },
{
    let n = items.len();
    let mut xs: Vec<u32> = Vec::new();
    let mut k: usize = 0;
    while k < n
        invariant
            n == items@.len(),
            k <= n,
            all_numbers(items@.take(k as int)),
            xs@ == narrowed(items@.take(k as int)),
        decreases n - k,
    {
        match &items[k] {
            Value::Num(x) => {
                xs.push(x.narrow);
            },
            _ => {
                assert(!(items@[k as int] is Num));
                return None;
            },
        }
        assert(items@.take(k + 1) =~= items@.take(k as int).push(items@[k as int]));
        assert(xs@ =~= narrowed(items@.take(k + 1)));
        k = k + 1;
    }
    assert(items@.take(n as int) =~= items@);
    Some(xs)
}

/// Coerces value `v` of field `name` in record `i` to a cell of type `t`.
pub fn coerce(i: usize, name: &String, t: FieldType, v: &Value) -> (r: Result<Cell, TranscodeError>)
    ensures
        match r {
            Ok(c) => coerced(i as nat, name@, t, *v) == Ok::<CellView, Fault>(c@),
            Err(e) => coerced(i as nat, name@, t, *v) == Err::<CellView, Fault>(e@),
        },
{
    if let Value::Null = v {
        return Ok(Cell::Null);
    }
    match t {
        FieldType::Utf8 => if let Value::Str(s) = v {
            return Ok(Cell::Utf8(s.clone()));
        },
        FieldType::Float32 => if let Value::Num(n) = v {
            return Ok(Cell::Float32(n.narrow));
        },
        FieldType::Float64 => if let Value::Num(n) = v {
            return Ok(Cell::Float64(n.wide));
        },
        FieldType::Int32 => if let Value::Num(n) = v {
            if let Some(k) = n.exact {
                if i32::MIN as i64 <= k && k <= i32::MAX as i64 {
                    return Ok(Cell::Int32(k as i32));
                }
            }
        },
        FieldType::Int64 => if let Value::Num(n) = v {
            if let Some(k) = n.exact {
                return Ok(Cell::Int64(k));
            }
        },
        FieldType::Boolean => if let Value::Bool(b) = v {
            return Ok(Cell::Boolean(*b));
        },
        FieldType::Vector(d) => if let Value::List(items) = v {
            if let Some(xs) = narrow_list(items) {
                if items.len() != d {
                    return Err(TranscodeError::VectorDimensionMismatch(name.clone(), d, items.len()));
                }
                return Ok(Cell::Vector(xs));
            }
        },
        FieldType::Other => {},
    }
    Err(TranscodeError::TypeMismatch(i, name.clone(), t))
}

} // verus!
