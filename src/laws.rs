//! Laws that relate resolution, encoding and decoding.

use vstd::prelude::*;
use vstd::arithmetic::div_mod::lemma_fundamental_div_mod_converse;
use crate::batch::{batch_of, cell_at, column_fits, column_of, ColumnView};
use crate::cell::{cell_fits, CellView};
use crate::decode::{decoded, first_corrupt, row_at};
use crate::encode::{encoded, field_cell, lemma_encoded, lemma_row_cells, row_cells};
use crate::error::Fault;
use crate::schema::{schema_wf, FieldType, FieldView};
use crate::value::{find_key, key_is, lookup, Key, Value};

verus! {

/// The record that pairs each column's name with the cell of `row` at the
/// same position.
pub open spec fn named_row(fields: Seq<FieldView>, row: Seq<CellView>) -> Seq<(Seq<char>, CellView)> {
    Seq::new(fields.len(), |j: int| (fields[j].name, row[j]))
}

/// A column built from cells that fit its type is laid out as its type
/// demands, and holds each row's cell.
proof fn lemma_column_of(t: FieldType, cells: Seq<Seq<CellView>>, j: int, i: int)
    requires
        t.recognized(),
        0 <= i < cells.len(),
        forall|k: int| 0 <= k < cells.len() ==> j < (#[trigger] cells[k]).len() && cell_fits(cells[k][j], t),
    ensures
        column_fits(column_of(t, cells, j), t, cells.len()),
        cell_at(column_of(t, cells, j), i) == cells[i][j],
{
    assert(j < cells[i].len() && cell_fits(cells[i][j], t));
    if let FieldType::Vector(d) = t {
        let n = cells.len();
        let di = d as int;
        if let CellView::Vector(v) = cells[i][j] {
            let values = column_of(t, cells, j)->Vector_values;
            assert((i + 1) * di <= n * di) by (nonlinear_arith)
                requires
                    i < n,
                    di >= 1,
            ;
            assert((i + 1) * di == i * di + di) by (nonlinear_arith);
            assert forall|m: int| 0 <= m < di implies values[i * di + m] == v[m] by {
                lemma_fundamental_div_mod_converse(i * di + m, di, i, m);
            }
            assert(values.subrange(i * di, i * di + di) =~= v);
        }
    }
}

/// The first columns of a batch whose columns all have readable types read,
/// at row `i`, as the named cells of that row.
proof fn lemma_row_at(cols: Seq<(FieldView, ColumnView)>, fields: Seq<FieldView>, row: Seq<CellView>, i: int, k: int)
    requires
        0 <= k <= cols.len(),
        cols.len() == fields.len(),
        row.len() == fields.len(),
        forall|j: int|
            0 <= j < cols.len() ==> (#[trigger] cols[j]).0 == fields[j] && !(fields[j].field_type is Other)
                && cell_at(cols[j].1, i) == row[j],
    ensures
        row_at(cols.take(k), i) == named_row(fields.take(k), row.take(k)),
    decreases k,
{
    if k > 0 {
        lemma_row_at(cols, fields, row, i, k - 1);
        assert(cols.take(k).drop_last() =~= cols.take(k - 1));
        assert(cols.take(k).last() == cols[k - 1]);
        assert(named_row(fields.take(k), row.take(k)) =~= named_row(fields.take(k - 1), row.take(k - 1)).push(
            (fields[k - 1].name, row[k - 1]),
        ));
    } else {
        assert(named_row(fields.take(0), row.take(0)) =~= Seq::empty());
    }
}

/// Decoding the batch that encoding builds gives back every record, in
/// order: for each column of the schema, its name with the value the record
/// gave it, normalised to the column's type. Nulls stay null and vectors
/// keep their entries.
pub proof fn lemma_round_trip(rs: Seq<Seq<(Key, Value)>>, fields: Seq<FieldView>)
    requires
        schema_wf(fields),
        encoded(rs, fields) is Ok,
    ensures
        decoded(batch_of(fields, encoded(rs, fields)->Ok_0)) == Ok::<
            Seq<Seq<(Seq<char>, CellView)>>,
            Fault,
        >(Seq::new(rs.len(), |i: int| named_row(fields, encoded(rs, fields)->Ok_0[i]))),
{
    let cells = encoded(rs, fields)->Ok_0;
    let b = batch_of(fields, cells);
    let n = rs.len();
    lemma_encoded(rs, fields);
    assert forall|i: int| 0 <= i < n implies (#[trigger] cells[i]).len() == fields.len() && forall|j: int|
        0 <= j < fields.len() ==> cell_fits(cells[i][j], fields[j].field_type) by {
        assert(row_cells(rs[i], i as nat, fields) == Ok::<Seq<CellView>, Fault>(cells[i]));
        lemma_row_cells(rs[i], i as nat, fields);
    }
    assert forall|j: int, i: int| 0 <= j < fields.len() && 0 <= i < n implies column_fits(
        #[trigger] b.columns[j].1,
        fields[j].field_type,
        n,
    ) && cell_at(b.columns[j].1, i) == #[trigger] cells[i][j] by {
        assert(fields[j].field_type.recognized());
        lemma_column_of(fields[j].field_type, cells, j, i);
    }
    assert forall|j: int| 0 <= j < fields.len() implies column_fits(
        #[trigger] b.columns[j].1,
        b.columns[j].0.field_type,
        n,
    ) by {
        assert(fields[j].field_type.recognized());
    }
    assert(!exists|j: int| first_corrupt(b.columns, b.num_rows, j));
    assert forall|i: int| 0 <= i < n implies row_at(b.columns, i) == named_row(fields, cells[i]) by {
        assert forall|j: int| 0 <= j < b.columns.len() implies (#[trigger] b.columns[j]).0 == fields[j]
            && !(fields[j].field_type is Other) && cell_at(b.columns[j].1, i) == cells[i][j] by {
            assert(fields[j].field_type.recognized());
            assert(cell_at(b.columns[j].1, i) == cells[i][j]);
        }
        lemma_row_at(b.columns, fields, cells[i], i, fields.len() as int);
        assert(b.columns.take(fields.len() as int) =~= b.columns);
        assert(fields.take(fields.len() as int) =~= fields);
        assert(cells[i].take(fields.len() as int) =~= cells[i]);
    }
    assert(decoded(b)->Ok_0 =~= Seq::new(n, |i: int| named_row(fields, cells[i])));
}

/// A field that a record gives as null decodes as null, whatever the
/// column's type.
pub proof fn lemma_null_propagates(rs: Seq<Seq<(Key, Value)>>, fields: Seq<FieldView>, i: int, j: int)
    requires
        schema_wf(fields),
        encoded(rs, fields) is Ok,
        0 <= i < rs.len(),
        0 <= j < fields.len(),
        lookup(rs[i], fields[j].name) == Some(Value::Null),
    ensures
        decoded(batch_of(fields, encoded(rs, fields)->Ok_0)) is Ok,
        decoded(batch_of(fields, encoded(rs, fields)->Ok_0))->Ok_0[i][j] == (fields[j].name, CellView::Null),
{
    lemma_round_trip(rs, fields);
    lemma_encoded(rs, fields);
    lemma_row_cells(rs[i], i as nat, fields);
    assert(field_cell(rs[i], i as nat, fields[j]) == Ok::<CellView, Fault>(CellView::Null));
}

/// Encoding no records gives a batch with no rows and one column per field,
/// and that batch decodes to no records.
pub proof fn lemma_empty_batch(fields: Seq<FieldView>)
    requires
        schema_wf(fields),
    ensures
        encoded(Seq::empty(), fields) == Ok::<Seq<Seq<CellView>>, Fault>(Seq::empty()),
        batch_of(fields, Seq::empty()).num_rows == 0,
        batch_of(fields, Seq::empty()).columns.len() == fields.len(),
        decoded(batch_of(fields, Seq::empty())) == Ok::<Seq<Seq<(Seq<char>, CellView)>>, Fault>(
            Seq::empty(),
        ),
{
    lemma_round_trip(Seq::empty(), fields);
    assert(Seq::new(0, |i: int| named_row(fields, Seq::<Seq<CellView>>::empty()[i])) =~= Seq::<
        Seq<(Seq<char>, CellView)>,
    >::empty());
}

proof fn lemma_find_key_none(r: Seq<(Key, Value)>, symbol: bool, name: Seq<char>)
    requires
        forall|l: int| 0 <= l < r.len() ==> !key_is(#[trigger] r[l].0, symbol, name),
    ensures
        find_key(r, symbol, name) is None,
    decreases r.len(),
{
    if r.len() > 0 {
        assert(!key_is(r[0].0, symbol, name));
        assert forall|l: int| 0 <= l < r.drop_first().len() implies !key_is(
            #[trigger] r.drop_first()[l].0,
            symbol,
            name,
        ) by {
            assert(r.drop_first()[l] == r[l + 1]);
        }
        lemma_find_key_none(r.drop_first(), symbol, name);
    }
}

proof fn lemma_find_key_first(r: Seq<(Key, Value)>, symbol: bool, name: Seq<char>, k: int)
    requires
        0 <= k < r.len(),
        key_is(r[k].0, symbol, name),
        forall|l: int| 0 <= l < k ==> !key_is(#[trigger] r[l].0, symbol, name),
    ensures
        find_key(r, symbol, name) == Some(r[k].1),
    decreases r.len(),
{
    if k > 0 {
        assert(!key_is(r[0].0, symbol, name));
        assert forall|l: int| 0 <= l < k - 1 implies !key_is(#[trigger] r.drop_first()[l].0, symbol, name) by {
            assert(r.drop_first()[l] == r[l + 1]);
        }
        lemma_find_key_first(r.drop_first(), symbol, name, k - 1);
    }
}

proof fn lemma_find_key_agree(r1: Seq<(Key, Value)>, r2: Seq<(Key, Value)>, symbol: bool, name: Seq<char>)
    requires
        r1.len() == r2.len(),
        forall|l: int|
            0 <= l < r1.len() ==> key_is(#[trigger] r1[l].0, symbol, name) == key_is(r2[l].0, symbol, name),
        forall|l: int|
            0 <= l < r1.len() && key_is(#[trigger] r1[l].0, symbol, name) ==> r1[l].1 == r2[l].1,
    ensures
        find_key(r1, symbol, name) == find_key(r2, symbol, name),
    decreases r1.len(),
{
    if r1.len() > 0 {
        assert(key_is(r1[0].0, symbol, name) == key_is(r2[0].0, symbol, name));
        assert forall|l: int| 0 <= l < r1.drop_first().len() implies key_is(
            #[trigger] r1.drop_first()[l].0,
            symbol,
            name,
        ) == key_is(r2.drop_first()[l].0, symbol, name) && (key_is(r1.drop_first()[l].0, symbol, name)
            ==> r1.drop_first()[l].1 == r2.drop_first()[l].1) by {
            assert(r1.drop_first()[l] == r1[l + 1]);
            assert(r2.drop_first()[l] == r2[l + 1]);
        }
        lemma_find_key_agree(r1.drop_first(), r2.drop_first(), symbol, name);
    }
}

proof fn lemma_row_cells_by_lookup(r1: Seq<(Key, Value)>, r2: Seq<(Key, Value)>, i: nat, fields: Seq<FieldView>)
    requires
        forall|name: Seq<char>| #[trigger] lookup(r1, name) == lookup(r2, name),
    ensures
        row_cells(r1, i, fields) == row_cells(r2, i, fields),
    decreases fields.len(),
{
    if fields.len() > 0 {
        lemma_row_cells_by_lookup(r1, r2, i, fields.drop_last());
        assert(lookup(r1, fields.last().name) == lookup(r2, fields.last().name));
    }
}

proof fn lemma_encoded_by_lookup(rs1: Seq<Seq<(Key, Value)>>, rs2: Seq<Seq<(Key, Value)>>, fields: Seq<FieldView>)
    requires
        rs1.len() == rs2.len(),
        forall|i: int, name: Seq<char>|
            0 <= i < rs1.len() ==> #[trigger] lookup(rs1[i], name) == lookup(rs2[i], name),
    ensures
        encoded(rs1, fields) == encoded(rs2, fields),
    decreases rs1.len(),
{
    if rs1.len() > 0 {
        let k = rs1.len() - 1;
        assert forall|i: int, name: Seq<char>| 0 <= i < rs1.drop_last().len() implies #[trigger] lookup(
            rs1.drop_last()[i],
            name,
        ) == lookup(rs2.drop_last()[i], name) by {
            assert(lookup(rs1[i], name) == lookup(rs2[i], name));
        }
        lemma_encoded_by_lookup(rs1.drop_last(), rs2.drop_last(), fields);
        assert forall|name: Seq<char>| #[trigger] lookup(rs1[k], name) == lookup(rs2[k], name) by {
            assert(lookup(rs1[k], name) == lookup(rs2[k], name));
        }
        lemma_row_cells_by_lookup(rs1[k], rs2[k], k as nat, fields);
    }
}

/// A record that gives a field's value under its plain string encodes, and
/// so decodes, exactly as the same record with that value under the field's
/// symbol, as long as no other entry of the record names the field.
pub proof fn lemma_key_representation(
    rs: Seq<Seq<(Key, Value)>>,
    fields: Seq<FieldView>,
    i: int,
    k: int,
    symbol: String,
)
    requires
        0 <= i < rs.len(),
        0 <= k < rs[i].len(),
        rs[i][k].0 matches Key::Text(t) && t@ == symbol@,
        forall|l: int|
            0 <= l < rs[i].len() && l != k ==> !key_is(#[trigger] rs[i][l].0, true, symbol@) && !key_is(
                rs[i][l].0,
                false,
                symbol@,
            ),
    ensures
        encoded(rs.update(i, rs[i].update(k, (Key::Symbol(symbol), rs[i][k].1))), fields) == encoded(rs, fields),
{
    let r1 = rs[i];
    let r2 = r1.update(k, (Key::Symbol(symbol), r1[k].1));
    let rs2 = rs.update(i, r2);
    assert forall|name: Seq<char>| #[trigger] lookup(r1, name) == lookup(r2, name) by {
        if name == symbol@ {
            assert forall|l: int| 0 <= l < r1.len() implies !key_is(#[trigger] r1[l].0, true, name) by {}
            lemma_find_key_none(r1, true, name);
            assert forall|l: int| 0 <= l < k implies !key_is(#[trigger] r1[l].0, false, name) by {}
            lemma_find_key_first(r1, false, name, k);
            assert forall|l: int| 0 <= l < k implies !key_is(#[trigger] r2[l].0, true, name) by {}
            lemma_find_key_first(r2, true, name, k);
        } else {
            lemma_find_key_agree(r1, r2, true, name);
            lemma_find_key_agree(r1, r2, false, name);
        }
    }
    assert forall|j: int, name: Seq<char>| 0 <= j < rs.len() implies #[trigger] lookup(rs2[j], name) == lookup(
        rs[j],
        name,
    ) by {
        if j == i {
            assert(lookup(r1, name) == lookup(r2, name));
        }
    }
    lemma_encoded_by_lookup(rs2, rs, fields);
}

} // verus!
