//! Column schemas, and their resolution from dynamic type descriptors.

use vstd::prelude::*;
use crate::error::{Fault, TranscodeError};
use crate::value::{find_field, lookup, Value};

verus! {

/// The largest vector dimension a column can declare.
pub const MAX_DIMENSION: usize = 0x7fff_ffff;

/// The type of a column.
#[derive(PartialEq, Eq, Structural, Clone, Copy, Debug)]
pub enum FieldType {
    Utf8,
    Float32,
    Float64,
    Int32,
    Int64,
    Boolean,
    /// A fixed-length sequence of 32-bit floats.
    Vector(usize),
    /// A type this library does not read (found only in batches that come
    /// from elsewhere).
    Other,
}

impl FieldType {
    /// One of the types a schema may declare.
    pub open spec fn recognized(self) -> bool {
        match self {
            FieldType::Vector(d) => 1 <= d <= MAX_DIMENSION,
            FieldType::Other => false,
            _ => true,
        }
    }
}

/// One column of a schema.
#[derive(Clone, Debug, PartialEq)]
pub struct FieldDef {
    pub name: String,
    pub field_type: FieldType,
    pub nullable: bool,
}

/// The mathematical value of a [`FieldDef`].
pub struct FieldView {
    pub name: Seq<char>,
    pub field_type: FieldType,
    pub nullable: bool,
}

impl View for FieldDef {
    type V = FieldView;

    open spec fn view(&self) -> FieldView {
        FieldView { name: self.name@, field_type: self.field_type, nullable: self.nullable }
    }
}

/// An ordered list of typed, named columns.
#[derive(Clone, Debug, PartialEq)]
pub struct ColumnSchema {
    pub fields: Vec<FieldDef>,
}

impl View for ColumnSchema {
    type V = Seq<FieldView>;

    open spec fn view(&self) -> Seq<FieldView> {
        self.fields@.map_values(|f: FieldDef| f@)
    }
}

/// Every column of `fields` has a type a schema may declare.
pub open spec fn schema_wf(fields: Seq<FieldView>) -> bool {
    forall|j: int| 0 <= j < fields.len() ==> (#[trigger] fields[j]).field_type.recognized()
}

impl ColumnSchema {
    pub open spec fn wf(&self) -> bool {
        schema_wf(self@)
    }

    /// Whether every column has a type that a schema may declare.
    pub fn is_valid(&self) -> (r: bool)
        ensures
            r == self.wf(),
    {
        let n = self.fields.len();
        let mut j: usize = 0;
        while j < n
            invariant
                n == self.fields@.len(),
                j <= n,
                forall|k: int| 0 <= k < j ==> (#[trigger] self@[k]).field_type.recognized(),
            decreases n - j,
        {
            let ok = match self.fields[j].field_type {
                FieldType::Vector(d) => 1 <= d && d <= MAX_DIMENSION,
                FieldType::Other => false,
                _ => true,
            };
            if !ok {
                assert(!self@[j as int].field_type.recognized());
                return false;
            }
            j = j + 1;
        }
        true
    }

    /// A copy of this schema.
    pub fn duplicate(&self) -> (r: ColumnSchema)
        ensures
            r@ == self@,
    {
        let n = self.fields.len();
        let mut fields: Vec<FieldDef> = Vec::new();
        let mut j: usize = 0;
        while j < n
            invariant
                n == self.fields@.len(),
                j <= n,
                fields@.len() == j,
                forall|k: int| 0 <= k < j ==> (#[trigger] fields@[k])@ == self.fields@[k]@,
            decreases n - j,
        {
            let f = &self.fields[j];
            fields.push(FieldDef { name: f.name.clone(), field_type: f.field_type, nullable: f.nullable });
            j = j + 1;
        }
        let r = ColumnSchema { fields };
        assert(r@ =~= self@);
        r
    }
}

/// The scalar type a bare tag names.
pub open spec fn scalar_type(tag: Seq<char>) -> Option<FieldType> {
    if tag == "string"@ {
        Some(FieldType::Utf8)
    } else if tag == "float32"@ {
        Some(FieldType::Float32)
    } else if tag == "float64"@ {
        Some(FieldType::Float64)
    } else if tag == "int32"@ {
        Some(FieldType::Int32)
    } else if tag == "int64"@ {
        Some(FieldType::Int64)
    } else if tag == "boolean"@ {
        Some(FieldType::Boolean)
    } else {
        None
    }
}

/// The dimension a structured descriptor gives, when it is a positive
/// integer within range.
pub open spec fn dimension_of(v: Option<Value>) -> Option<usize> {
    match v {
        Some(Value::Num(n)) => match n.exact {
            Some(k) => if 1 <= k <= MAX_DIMENSION {
                Some(k as usize)
            } else {
                None
            },
            None => None,
        },
        _ => None,
    }
}

/// The type that descriptor `d` of field `name` denotes.
pub open spec fn descriptor_type(name: Seq<char>, d: Value) -> Result<FieldType, Fault> {
    match d {
        Value::Str(tag) => match scalar_type(tag@) {
            Some(t) => Ok(t),
            None => Err(Fault::UnknownType(tag@)),
        },
        Value::Hash(entries) => match lookup(entries@, "type"@) {
            Some(Value::Str(tag)) => if tag@ == "vector"@ {
                match dimension_of(lookup(entries@, "dimension"@)) {
                    Some(k) => Ok(FieldType::Vector(k)),
                    None => Err(Fault::MalformedDescriptor(name)),
                }
            } else {
                Err(Fault::UnknownType(tag@))
            },
            _ => Err(Fault::MalformedDescriptor(name)),
        },
        _ => Err(Fault::MalformedDescriptor(name)),
    }
}

/// The schema that a mapping from field name to descriptor denotes: one
/// nullable column per entry, in order, or the error of the first entry
/// that denotes no type.
pub open spec fn resolved(entries: Seq<(String, Value)>) -> Result<Seq<FieldView>, Fault>
    decreases entries.len(),
{
    if entries.len() == 0 {
        Ok(Seq::empty())
    } else {
        match resolved(entries.drop_last()) {
            Err(e) => Err(e),
            Ok(fields) => {
                let (name, d) = entries.last();
                match descriptor_type(name@, d) {
                    Err(e) => Err(e),
                    Ok(t) => Ok(fields.push(FieldView { name: name@, field_type: t, nullable: true })),
                }
            },
        }
    }
}

fn text(s: &str) -> (r: String)
    ensures
        r@ == s@,
{
    String::from_str(s)
}

/// The tag that names type `t` in a descriptor: its scalar tag, `vector`
/// for a vector (whose descriptor also gives the dimension), or none for a
/// type that no descriptor names.
pub fn type_tag(t: FieldType) -> (r: Option<String>)
    ensures
        match r {
            Some(s) => match t {
                FieldType::Vector(_) => s@ == "vector"@,
                _ => scalar_type(s@) == Some(t),
            },
            None => t is Other,
        },
{
    proof {
        reveal_strlit("string");
        reveal_strlit("float32");
        reveal_strlit("float64");
        reveal_strlit("int32");
        reveal_strlit("int64");
        reveal_strlit("boolean");
    }
    match t {
        FieldType::Utf8 => {
            let s = text("string");
            assert(scalar_type(s@) == Some(FieldType::Utf8));
            Some(s)
        },
        FieldType::Float32 => {
            let s = text("float32");
            assert(s@.len() != "string"@.len());
            assert(scalar_type(s@) == Some(FieldType::Float32));
            Some(s)
        },
        FieldType::Float64 => {
            let s = text("float64");
            assert(s@.len() != "string"@.len());
            assert(s@[5] != "float32"@[5]);
            assert(scalar_type(s@) == Some(FieldType::Float64));
            Some(s)
        },
        FieldType::Int32 => {
            let s = text("int32");
            assert(s@.len() != "string"@.len() && s@.len() != "float32"@.len());
            assert(scalar_type(s@) == Some(FieldType::Int32));
            Some(s)
        },
        FieldType::Int64 => {
            let s = text("int64");
            assert(s@.len() != "string"@.len() && s@.len() != "float32"@.len());
            assert(s@[3] != "int32"@[3]);
            assert(scalar_type(s@) == Some(FieldType::Int64));
            Some(s)
        },
        FieldType::Boolean => {
            let s = text("boolean");
            assert(s@.len() != "string"@.len() && s@.len() != "int32"@.len());
            assert(s@[0] != "float32"@[0]);
            assert(scalar_type(s@) == Some(FieldType::Boolean));
            Some(s)
        },
        FieldType::Vector(_) => Some(text("vector")),
        FieldType::Other => None,
    }
}

fn resolve_scalar(tag: &String) -> (r: Option<FieldType>)
    ensures
        r == scalar_type(tag@),
{
    if tag.eq(&text("string")) {
        Some(FieldType::Utf8)
    } else if tag.eq(&text("float32")) {
        Some(FieldType::Float32)
    } else if tag.eq(&text("float64")) {
        Some(FieldType::Float64)
    } else if tag.eq(&text("int32")) {
        Some(FieldType::Int32)
    } else if tag.eq(&text("int64")) {
        Some(FieldType::Int64)
    } else if tag.eq(&text("boolean")) {
        Some(FieldType::Boolean)
    } else {
        None
    }
}

fn resolve_descriptor(name: &String, d: &Value) -> (r: Result<FieldType, TranscodeError>)
    ensures
        match r {
            Ok(t) => descriptor_type(name@, *d) == Ok::<FieldType, Fault>(t),
            Err(e) => descriptor_type(name@, *d) == Err::<FieldType, Fault>(e@),
        },
{
    match d {
        Value::Str(tag) => match resolve_scalar(tag) {
            Some(t) => Ok(t),
            None => Err(TranscodeError::UnknownType(tag.clone())),
        },
        Value::Hash(entries) => {
            let type_pos = find_field(entries, &text("type"));
            match type_pos {
                Some(i) => match &entries[i].1 {
                    Value::Str(tag) => {
                        if tag.eq(&text("vector")) {
                            match find_field(entries, &text("dimension")) {
                                Some(k) => match &entries[k].1 {
                                    Value::Num(n) => match n.exact {
                                        Some(v) => if 1 <= v && v <= MAX_DIMENSION as i64 {
                                            Ok(FieldType::Vector(v as usize))
                                        } else {
                                            Err(TranscodeError::MalformedDescriptor(name.clone()))
                                        },
                                        None => Err(TranscodeError::MalformedDescriptor(name.clone())),
                                    },
                                    _ => Err(TranscodeError::MalformedDescriptor(name.clone())),
                                },
                                None => Err(TranscodeError::MalformedDescriptor(name.clone())),
                            }
                        } else {
                            Err(TranscodeError::UnknownType(tag.clone()))
                        }
                    },
                    _ => Err(TranscodeError::MalformedDescriptor(name.clone())),
                },
                None => Err(TranscodeError::MalformedDescriptor(name.clone())),
            }
        },
        _ => Err(TranscodeError::MalformedDescriptor(name.clone())),
    }
}

/// Resolves a mapping from field name to type descriptor into a column
/// schema.
///
/// A descriptor is either a bare tag (`string`, `float32`, `float64`,
/// `int32`, `int64`, `boolean`) or a hash whose `type` is `vector` and whose
/// `dimension` is a positive integer. Every column is nullable, and columns
/// keep the order of the entries.
pub fn resolve(entries: &Vec<(String, Value)>) -> (r: Result<ColumnSchema, TranscodeError>)
    ensures
        match r {
            Ok(s) => resolved(entries@) == Ok::<Seq<FieldView>, Fault>(s@) && s.wf(),
            Err(e) => resolved(entries@) == Err::<Seq<FieldView>, Fault>(e@),
        },
{
    let n = entries.len();
    let mut fields: Vec<FieldDef> = Vec::new();
    let mut j: usize = 0;
    assert(entries@.take(0).len() == 0);
    assert(fields@.map_values(|f: FieldDef| f@) =~= Seq::<FieldView>::empty());
    while j < n
        invariant
            n == entries@.len(),
            j <= n,
            resolved(entries@.take(j as int)) == Ok::<Seq<FieldView>, Fault>(
                fields@.map_values(|f: FieldDef| f@),
            ),
            schema_wf(fields@.map_values(|f: FieldDef| f@)),
        decreases n - j,
    {
        let (name, d) = (&entries[j].0, &entries[j].1);
        assert(entries@.take(j + 1).drop_last() =~= entries@.take(j as int));
        match resolve_descriptor(name, d) {
            Ok(t) => {
                proof {
                    lemma_descriptor_recognized(name@, *d);
                }
                fields.push(FieldDef { name: name.clone(), field_type: t, nullable: true });
                assert(fields@.map_values(|f: FieldDef| f@) =~= resolved(entries@.take(j + 1))->Ok_0);
            },
            Err(e) => {
                proof {
                    lemma_error_persists(entries@, j as int + 1);
                }
                assert(entries@.take(n as int) =~= entries@);
                return Err(e);
            },
        }
        j = j + 1;
    }
    assert(entries@.take(n as int) =~= entries@);
    Ok(ColumnSchema { fields })
}

/// A type that a descriptor denotes is one a schema may declare.
proof fn lemma_descriptor_recognized(name: Seq<char>, d: Value)
    ensures
        descriptor_type(name, d) matches Ok(t) ==> t.recognized(),
{
}

/// Once a prefix of the entries fails to resolve, every longer prefix fails
/// with the same error.
proof fn lemma_error_persists(entries: Seq<(String, Value)>, k: int)
    requires
        0 <= k <= entries.len(),
        resolved(entries.take(k)) is Err,
    ensures
        resolved(entries) == resolved(entries.take(k)),
    decreases entries.len() - k,
{
    if k < entries.len() {
        assert(entries.take(k + 1).drop_last() =~= entries.take(k));
        lemma_error_persists(entries, k + 1);
    } else {
        assert(entries.take(k) =~= entries);
    }
}

} // verus!
