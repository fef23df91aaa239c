//! Loosely typed values as a host language hands them over.

use vstd::prelude::*;

verus! {

/// How a record or a descriptor names one of its entries: by a symbol or by
/// a plain string. Both name the same field.
#[derive(Clone, Debug, PartialEq)]
pub enum Key {
    Symbol(String),
    Text(String),
}

/// A host number as each column type reads it.
///
/// `exact` is the number itself when it is an integer that fits in 64 bits,
/// `wide` the bit pattern of the number as a 64-bit float, and `narrow` the
/// bit pattern of that float narrowed to 32 bits.
#[derive(Clone, Debug, PartialEq)]
pub struct Number {
    pub exact: Option<i64>,
    pub wide: u64,
    pub narrow: u32,
}

/// A dynamically typed value.
#[derive(Debug, PartialEq)]
pub enum Value {
    Null,
    Str(String),
    Num(Number),
    Bool(bool),
    List(Vec<Value>),
    Hash(Vec<(Key, Value)>),
}

/// Whether `k` is the symbol (`symbol == true`) or the plain string
/// (`symbol == false`) spelled `name`.
pub open spec fn key_is(k: Key, symbol: bool, name: Seq<char>) -> bool {
    match k {
        Key::Symbol(s) => symbol && s@ == name,
        Key::Text(s) => !symbol && s@ == name,
    }
}

/// The value of the first entry whose key is `name` in the given
/// representation.
pub open spec fn find_key(entries: Seq<(Key, Value)>, symbol: bool, name: Seq<char>) -> Option<Value>
    decreases entries.len(),
{
    if entries.len() == 0 {
        None
    } else if key_is(entries[0].0, symbol, name) {
        Some(entries[0].1)
    } else {
        find_key(entries.drop_first(), symbol, name)
    }
}

/// The value stored for field `name`: under its symbol if there is one,
/// otherwise under its plain string.
pub open spec fn lookup(entries: Seq<(Key, Value)>, name: Seq<char>) -> Option<Value> {
    match find_key(entries, true, name) {
        Some(v) => Some(v),
        None => find_key(entries, false, name),
    }
}

fn key_matches(k: &Key, symbol: bool, name: &String) -> (r: bool)
    ensures
        r == key_is(*k, symbol, name@),
{
    match k {
        Key::Symbol(s) => symbol && s.eq(name),
        Key::Text(s) => !symbol && s.eq(name),
    }
}

fn find_position(entries: &Vec<(Key, Value)>, symbol: bool, name: &String) -> (r: Option<usize>)
    ensures
        match r {
            Some(i) => i < entries@.len() && find_key(entries@, symbol, name@) == Some(entries@[i as int].1),
            None => find_key(entries@, symbol, name@) is None,
        },
{
    let n = entries.len();
    let mut i: usize = 0;
    assert(entries@.subrange(0, n as int) =~= entries@);
    while i < n
        invariant
            n == entries@.len(),
            i <= n,
            find_key(entries@, symbol, name@) == find_key(entries@.subrange(i as int, n as int), symbol, name@),
        decreases n - i,
    {
        let ghost rest = entries@.subrange(i as int, n as int);
        assert(rest[0] == entries@[i as int]);
        assert(rest.drop_first() =~= entries@.subrange(i + 1, n as int));
        if key_matches(&entries[i].0, symbol, name) {
            return Some(i);
        }
        i = i + 1;
    }
    assert(entries@.subrange(n as int, n as int).len() == 0);
    None
}

/// Finds the entry for field `name`, looking for its symbol first and then
/// for its plain string. Returns the entry's position.
pub fn find_field(entries: &Vec<(Key, Value)>, name: &String) -> (r: Option<usize>)
    ensures
        match r {
            Some(i) => i < entries@.len() && lookup(entries@, name@) == Some(entries@[i as int].1),
            None => lookup(entries@, name@) is None,
        },
{
    match find_position(entries, true, name) {
        Some(i) => Some(i),
        None => find_position(entries, false, name),
    }
}

} // verus!
