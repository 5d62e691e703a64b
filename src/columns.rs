//! The arrow arrays that an assembly fills, each held behind a small
//! library type whose contents are named for the contracts.

use vstd::prelude::*;

use std::sync::Arc;

use arrow::array::Array;
use arrow::array::AsArray;
use arrow::array::DictionaryArray;
use arrow::array::FixedSizeBinaryDictionaryBuilder;
use arrow::array::PrimitiveArray;
use arrow::datatypes::Field;
use arrow::datatypes::Int64Type;
use arrow::datatypes::Schema;
use arrow::error::ArrowError;
use arrow::record_batch::RecordBatch;

verus! {

#[verifier::external_type_specification]
#[verifier::external_body]
pub struct ExArrowError(ArrowError);

/// Joins a sequence of key sequences end to end, in order.
pub open spec fn joined(s: Seq<Seq<i64>>) -> Seq<i64>
    decreases s.len(),
{
    if s.len() == 0 {
        Seq::empty()
    } else {
        joined(s.drop_last()) + s.last()
    }
}

/// The row values that a dictionary column decodes to: the value that
/// each code points at.
pub open spec fn decoded(values: Seq<Seq<u8>>, codes: Seq<i64>) -> Seq<Seq<u8>> {
    codes.map_values(|c: i64| values[c as int])
}

/// No value of the dictionary occurs twice.
pub open spec fn distinct_values(values: Seq<Seq<u8>>) -> bool {
    forall|i: int, j: int| 0 <= i < j < values.len() ==> values[i] != values[j]
}

/// Every code points into the dictionary.
pub open spec fn codes_in_range(values: Seq<Seq<u8>>, codes: Seq<i64>) -> bool {
    forall|i: int| 0 <= i < codes.len() ==> 0 <= #[trigger] codes[i] < values.len()
}

/// A 64-bit integer arrow array (`PrimitiveArray<Int64Type>`) without null
/// slots: it is only ever built from a vector or by concatenating such arrays.
#[verifier::external_body]
pub struct KeyColumn {
    array: PrimitiveArray<Int64Type>,
}

/// The values of a key column, in order.
pub uninterp spec fn key_values(c: KeyColumn) -> Seq<i64>;

/// Relies on arrow's `From<Vec<i64>>` for `PrimitiveArray<Int64Type>`:
/// the array holds the vector's values, in order, with no null.
#[verifier::external_body]
pub(crate) fn key_column_of(v: Vec<i64>) -> (r: KeyColumn)
    ensures
        key_values(r) == v@,
{
    KeyColumn { array: PrimitiveArray::<Int64Type>::from(v) }
}

/// Relies on arrow's `concat`: on one array or more of one data type it
/// returns their values end to end; on none it fails.
#[verifier::external_body]
pub(crate) fn concat_key_columns(cols: &Vec<KeyColumn>) -> (r: Result<KeyColumn, ArrowError>)
    ensures
        r is Ok <==> cols@.len() > 0,
        r matches Ok(c) ==> key_values(c) == joined(cols@.map_values(|k: KeyColumn| key_values(k))),
{
    let refs: Vec<&dyn Array> = cols.iter().map(|c| &c.array as &dyn Array).collect();
    let joined = arrow::compute::concat(&refs)?;
    Ok(KeyColumn { array: joined.as_primitive::<Int64Type>().clone() })
}

/// A dictionary encoder of fixed-width byte strings with 64-bit codes
/// (arrow's `FixedSizeBinaryDictionaryBuilder<Int64Type>`).
#[verifier::external_body]
pub struct BucketDictionary {
    builder: FixedSizeBinaryDictionaryBuilder<Int64Type>,
}

/// The distinct values stored so far, in order of first appearance.
pub uninterp spec fn dictionary_values(d: BucketDictionary) -> Seq<Seq<u8>>;

/// The codes appended so far, one per row.
pub uninterp spec fn dictionary_codes(d: BucketDictionary) -> Seq<i64>;

/// The byte width that the encoder was made with.
pub uninterp spec fn dictionary_width(d: BucketDictionary) -> int;

/// Relies on `FixedSizeBinaryDictionaryBuilder::new`: an empty encoder of
/// the given byte width (a negative width panics).
#[verifier::external_body]
pub(crate) fn new_bucket_dictionary(width: i32) -> (r: BucketDictionary)
    requires
        width >= 0,
    ensures
        dictionary_values(r) == Seq::<Seq<u8>>::empty(),
        dictionary_codes(r) == Seq::<i64>::empty(),
        dictionary_width(r) == width as int,
{
    BucketDictionary { builder: FixedSizeBinaryDictionaryBuilder::new(width) }
}

/// Relies on `FixedSizeBinaryDictionaryBuilder::append_n`: a value of the
/// wrong width is refused with nothing changed; otherwise the value gets the
/// code of its earlier occurrence, or is stored last with a new code, and
/// that code is appended `count` times. A new code that does not fit in
/// `i64` is refused. (The width test casts the length to `i32`, hence the
/// bound on it.)
#[verifier::external_body]
pub(crate) fn dictionary_append_n(d: &mut BucketDictionary, value: &[u8], count: usize) -> (r: Result<i64, ArrowError>)
    requires
        value@.len() <= i32::MAX,
    ensures
        dictionary_width(*final(d)) == dictionary_width(*old(d)),
        r is Err <==> (value@.len() != dictionary_width(*old(d)) || (!dictionary_values(*old(d)).contains(value@)
            && dictionary_values(*old(d)).len() > i64::MAX)),
        value@.len() != dictionary_width(*old(d)) ==> *final(d) == *old(d),
        r matches Ok(code) ==> {
            &&& 0 <= code < dictionary_values(*final(d)).len()
            &&& dictionary_values(*final(d))[code as int] == value@
            &&& dictionary_codes(*final(d)) == dictionary_codes(*old(d)) + Seq::new(count as nat, |i: int| code)
            &&& if dictionary_values(*old(d)).contains(value@) {
                dictionary_values(*final(d)) == dictionary_values(*old(d))
            } else {
                dictionary_values(*final(d)) == dictionary_values(*old(d)).push(value@)
            }
        },
{
    d.builder.append_n(value, count)
}

/// A finished dictionary-encoded column (arrow's `DictionaryArray<Int64Type>`
/// over fixed-width binary values).
#[verifier::external_body]
pub struct BucketColumn {
    array: DictionaryArray<Int64Type>,
}

/// The dictionary of a finished bucket column.
pub uninterp spec fn column_values(c: BucketColumn) -> Seq<Seq<u8>>;

/// The codes of a finished bucket column, one per row.
pub uninterp spec fn column_codes(c: BucketColumn) -> Seq<i64>;

/// `Some(w)` when the data type of a finished bucket column is a dictionary
/// with `Int64` codes over `FixedSizeBinary(w)` values; `None` otherwise.
pub uninterp spec fn column_type_width(c: BucketColumn) -> Option<int>;

/// Relies on `FixedSizeBinaryDictionaryBuilder::finish`: the array holds the
/// encoder's values as its dictionary and its codes as its keys, with no null,
/// and is typed `Dictionary(Int64, FixedSizeBinary(width))`.
#[verifier::external_body]
pub(crate) fn finish_bucket_dictionary(d: BucketDictionary) -> (r: BucketColumn)
    ensures
        column_values(r) == dictionary_values(d),
        column_codes(r) == dictionary_codes(d),
        column_type_width(r) == Some(dictionary_width(d)),
{
    let mut d = d;
    BucketColumn { array: d.builder.finish() }
}

/// The two-column table that an assembly yields: an arrow `RecordBatch`
/// with a non-nullable dictionary-encoded bucket column and a non-nullable
/// 64-bit key column.
#[verifier::external_body]
pub struct KeyTable {
    pub batch: RecordBatch,
}

/// The name of the bucket column.
pub uninterp spec fn table_bucket_name(t: KeyTable) -> Seq<char>;

/// The name of the key column.
pub uninterp spec fn table_key_name(t: KeyTable) -> Seq<char>;

/// The dictionary of the bucket column.
pub uninterp spec fn table_bucket_values(t: KeyTable) -> Seq<Seq<u8>>;

/// The codes of the bucket column, one per row.
pub uninterp spec fn table_bucket_codes(t: KeyTable) -> Seq<i64>;

/// The key column, one value per row.
pub uninterp spec fn table_keys(t: KeyTable) -> Seq<i64>;

/// Whether each field of the schema is nullable, in field order.
pub uninterp spec fn table_field_nullable(t: KeyTable) -> Seq<bool>;

/// `Some(w)` when the bucket field's data type is a dictionary with `Int64`
/// codes over `FixedSizeBinary(w)` values; `None` otherwise.
pub uninterp spec fn table_bucket_type_width(t: KeyTable) -> Option<int>;

/// Whether the key field's data type is `Int64`.
pub uninterp spec fn table_key_type_is_int64(t: KeyTable) -> bool;

/// The null count of each column, in column order.
pub uninterp spec fn table_null_counts(t: KeyTable) -> Seq<int>;

/// Relies on `RecordBatch::try_new`, given a schema of two non-nullable
/// fields typed after the two columns: the batch holds the two columns as
/// given, and it is refused exactly when their lengths differ (neither
/// column holds a null; a key column is always typed `Int64`).
#[verifier::external_body]
pub(crate) fn key_table_of(bucket_name: &str, key_name: &str, buckets: BucketColumn, keys: KeyColumn) -> (r: Result<KeyTable, ArrowError>)
    ensures
        r is Ok <==> column_codes(buckets).len() == key_values(keys).len(),
        r matches Ok(t) ==> {
            &&& table_bucket_name(t) == bucket_name@
            &&& table_key_name(t) == key_name@
            &&& table_bucket_values(t) == column_values(buckets)
            &&& table_bucket_codes(t) == column_codes(buckets)
            &&& table_keys(t) == key_values(keys)
            &&& table_field_nullable(t) == seq![false, false]
            &&& table_bucket_type_width(t) == column_type_width(buckets)
            &&& table_key_type_is_int64(t)
            &&& table_null_counts(t) == seq![0int, 0int]
        },
{
    let schema = Schema::new(vec![
        Field::new(bucket_name, buckets.array.data_type().clone(), false),
        Field::new(key_name, keys.array.data_type().clone(), false),
    ]);
    let columns: Vec<Arc<dyn Array>> = vec![Arc::new(buckets.array), Arc::new(keys.array)];
    Ok(KeyTable { batch: RecordBatch::try_new(Arc::new(schema), columns)? })
}

} // verus!
