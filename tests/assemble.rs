use std::io;

use rs_arrow_concat_keys2rbat::arrow::array::Array;
use rs_arrow_concat_keys2rbat::arrow::array::AsArray;
use rs_arrow_concat_keys2rbat::arrow::array::FixedSizeBinaryArray;
use rs_arrow_concat_keys2rbat::arrow::datatypes::DataType;
use rs_arrow_concat_keys2rbat::arrow::datatypes::Int64Type;
use rs_arrow_concat_keys2rbat::arrow::record_batch::RecordBatch;
use rs_arrow_concat_keys2rbat::assemble::AssemblyError;
use rs_arrow_concat_keys2rbat::assemble::BatchAssembler;
use rs_arrow_concat_keys2rbat::codec::bucket_item_of_uuid;
use rs_arrow_concat_keys2rbat::codec::bucket_of_uuid;
use rs_arrow_concat_keys2rbat::codec::uuid_of_bucket;
use rs_arrow_concat_keys2rbat::sources::SimpleKeysSource;
use rs_arrow_concat_keys2rbat::sources::UuidBigSerialsSource;

const I1: u128 = 0x0011_2233_4455_6677_8899_aabb_ccdd_eeff;
const I2: u128 = 0xffee_ddcc_bbaa_9988_7766_5544_3322_1100;
const I3: u128 = 7;

/// Keys by 128-bit bucket value; an unknown bucket fails.
struct Serials(Vec<(u128, Vec<i64>)>);

impl UuidBigSerialsSource for Serials {
    fn get_serials(&self, bucket: u128) -> Result<Vec<i64>, io::Error> {
        for (b, keys) in &self.0 {
            if *b == bucket {
                return Ok(keys.clone());
            }
        }
        Err(io::Error::other(format!("no keys for {bucket}")))
    }
}

/// Keys of a two-byte bucket: its two bytes.
struct Bytes2;

impl SimpleKeysSource<2> for Bytes2 {
    fn get_keys(&self, bucket: [u8; 2]) -> Result<Vec<i64>, io::Error> {
        Ok(vec![bucket[0] as i64, bucket[1] as i64])
    }
}

fn run(source: &Serials, buckets: &[u128]) -> Result<RecordBatch, AssemblyError> {
    let mut pass = BatchAssembler::new(16).unwrap();
    for b in buckets {
        pass = pass.add_from_source(source, Ok(bucket_of_uuid(*b)))?;
    }
    Ok(pass.finish("bucket", "key")?.batch)
}

/// The bucket column decoded to 128-bit values, and the codes.
fn bucket_column(rb: &RecordBatch) -> (Vec<u128>, Vec<i64>, usize) {
    let dict = rb.column(0).as_dictionary::<Int64Type>();
    let values = dict.values().as_any().downcast_ref::<FixedSizeBinaryArray>().unwrap();
    let codes: Vec<i64> = dict.keys().values().iter().copied().collect();
    let rows = codes
        .iter()
        .map(|c| {
            let bytes: [u8; 16] = values.value(*c as usize).try_into().unwrap();
            u128::from_be_bytes(bytes)
        })
        .collect();
    (rows, codes, values.len())
}

fn key_column(rb: &RecordBatch) -> Vec<i64> {
    rb.column(1).as_primitive::<Int64Type>().values().iter().copied().collect()
}

#[test]
fn two_buckets_scenario() {
    let src = Serials(vec![(I1, vec![10, 20]), (I2, vec![30])]);
    let rb = run(&src, &[I1, I2]).unwrap();
    let (rows, codes, n_values) = bucket_column(&rb);
    assert_eq!(rows, vec![I1, I1, I2]);
    assert_eq!(codes[0], codes[1]);
    assert_ne!(codes[1], codes[2]);
    assert_eq!(key_column(&rb), vec![10, 20, 30]);
    assert_eq!(n_values, 2);
    assert_eq!(rb.num_rows(), 3);
}

#[test]
fn schema_names_and_types() {
    let src = Serials(vec![(I1, vec![1])]);
    let rb = run(&src, &[I1]).unwrap();
    assert_eq!(rb.column(0).null_count(), 0);
    assert_eq!(rb.column(1).null_count(), 0);
    let schema = rb.schema();
    assert_eq!(schema.fields().len(), 2);
    assert_eq!(schema.field(0).name(), "bucket");
    assert_eq!(schema.field(1).name(), "key");
    assert!(!schema.field(0).is_nullable());
    assert!(!schema.field(1).is_nullable());
    assert_eq!(
        schema.field(0).data_type(),
        &DataType::Dictionary(Box::new(DataType::Int64), Box::new(DataType::FixedSizeBinary(16)))
    );
    assert_eq!(schema.field(1).data_type(), &DataType::Int64);
}

#[test]
fn rows_aligned_with_many_buckets() {
    let src = Serials(vec![(I1, vec![5, 6, 7]), (I2, vec![]), (I3, vec![8])]);
    let rb = run(&src, &[I3, I1, I2, I1]).unwrap();
    let (rows, _, n_values) = bucket_column(&rb);
    let keys = key_column(&rb);
    assert_eq!(rows.len(), keys.len());
    assert_eq!(rows, vec![I3, I1, I1, I1, I1, I1, I1]);
    assert_eq!(keys, vec![8, 5, 6, 7, 5, 6, 7]);
    assert_eq!(n_values, 2);
}

#[test]
fn order_of_arrival_is_kept() {
    let src = Serials(vec![(I1, vec![3, 1]), (I2, vec![2, 9])]);
    let rb = run(&src, &[I2, I1]).unwrap();
    let (rows, codes, _) = bucket_column(&rb);
    assert_eq!(rows, vec![I2, I2, I1, I1]);
    assert_eq!(codes, vec![0, 0, 1, 1]);
    assert_eq!(key_column(&rb), vec![2, 9, 3, 1]);
}

#[test]
fn empty_bucket_leaves_no_trace() {
    let src = Serials(vec![(I1, vec![]), (I2, vec![4])]);
    let rb = run(&src, &[I1, I2]).unwrap();
    let (rows, codes, n_values) = bucket_column(&rb);
    assert_eq!(rows, vec![I2]);
    assert_eq!(codes, vec![0]);
    assert_eq!(n_values, 1);
    assert_eq!(key_column(&rb), vec![4]);
}

#[test]
fn only_empty_buckets_give_empty_table() {
    let src = Serials(vec![(I1, vec![])]);
    let rb = run(&src, &[I1]).unwrap();
    let (rows, _, n_values) = bucket_column(&rb);
    assert!(rows.is_empty());
    assert_eq!(n_values, 0);
    assert_eq!(rb.num_rows(), 0);
}

#[test]
fn single_bucket_identity() {
    let src = Serials(vec![(I3, vec![-1, 0, i64::MAX, i64::MIN])]);
    let rb = run(&src, &[I3]).unwrap();
    let (rows, codes, n_values) = bucket_column(&rb);
    assert_eq!(rows, vec![I3; 4]);
    assert_eq!(codes, vec![0; 4]);
    assert_eq!(n_values, 1);
    assert_eq!(key_column(&rb), vec![-1, 0, i64::MAX, i64::MIN]);
}

#[test]
fn key_source_failure_fails_the_pass() {
    let src = Serials(vec![(I1, vec![1]), (I3, vec![3])]);
    let r = run(&src, &[I1, I2, I3]);
    match r {
        Err(AssemblyError::Keys(e)) => assert!(e.to_string().contains("no keys for")),
        _ => panic!("expected a key source failure"),
    }
}

#[test]
fn bucket_source_failure_fails_the_pass() {
    let src = Serials(vec![(I1, vec![1])]);
    let pass = BatchAssembler::new(16).unwrap().add_from_source(&src, Ok(bucket_of_uuid(I1))).unwrap();
    let r = pass.add_from_source(&src, Err(io::Error::other("unreadable entry")));
    match r {
        Err(AssemblyError::Bucket(e)) => assert_eq!(e.to_string(), "unreadable entry"),
        _ => panic!("expected a bucket source failure"),
    }
}

#[test]
fn fetched_failure_is_passed_on() {
    let r = BatchAssembler::new(4).unwrap().add_fetched(&[1, 2, 3, 4], Err(io::Error::other("bad payload")));
    match r {
        Err(AssemblyError::Keys(e)) => assert_eq!(e.to_string(), "bad payload"),
        _ => panic!("expected a key failure"),
    }
}

#[test]
fn no_bucket_gives_empty_table() {
    let rb = BatchAssembler::new(16).unwrap().finish("bucket", "key").unwrap().batch;
    assert_eq!(rb.num_rows(), 0);
    let (rows, codes, n_values) = bucket_column(&rb);
    assert!(rows.is_empty());
    assert!(codes.is_empty());
    assert_eq!(n_values, 0);
    assert!(key_column(&rb).is_empty());
    let schema = rb.schema();
    assert_eq!(schema.fields().len(), 2);
    assert_eq!(schema.field(0).name(), "bucket");
    assert_eq!(schema.field(1).name(), "key");
    assert!(!schema.field(0).is_nullable());
    assert!(!schema.field(1).is_nullable());
    assert_eq!(
        schema.field(0).data_type(),
        &DataType::Dictionary(Box::new(DataType::Int64), Box::new(DataType::FixedSizeBinary(16)))
    );
    assert_eq!(schema.field(1).data_type(), &DataType::Int64);
}

#[test]
fn empty_bucket_alone_matches_no_bucket() {
    let src = Serials(vec![(I1, vec![])]);
    let with_empty = run(&src, &[I1]).unwrap();
    let without = run(&src, &[]).unwrap();
    assert_eq!(bucket_column(&with_empty), bucket_column(&without));
    assert_eq!(key_column(&with_empty), key_column(&without));
}

#[test]
fn too_wide_identifier_is_refused() {
    let r = BatchAssembler::new(i32::MAX as usize + 1);
    assert!(matches!(r, Err(AssemblyError::WidthTooLarge)));
}

#[test]
fn wrong_width_is_an_encoding_error() {
    let r = BatchAssembler::new(4).unwrap().add_bucket(&[1, 2, 3], vec![1]);
    assert!(matches!(r, Err(AssemblyError::Encoding(_))));
}

#[test]
fn wrong_width_without_keys_is_invisible() {
    let pass = BatchAssembler::new(4).unwrap().add_bucket(&[1, 2, 3], vec![]).unwrap();
    let pass = pass.add_bucket(&[9, 9, 9, 9], vec![42]).unwrap();
    let rb = pass.finish("b", "k").unwrap().batch;
    assert_eq!(rb.num_rows(), 1);
    let dict = rb.column(0).as_dictionary::<Int64Type>();
    let values = dict.values().as_any().downcast_ref::<FixedSizeBinaryArray>().unwrap();
    assert_eq!(values.len(), 1);
    assert_eq!(values.value(0), &[9, 9, 9, 9]);
    assert_eq!(key_column(&rb), vec![42]);
}

#[test]
fn generic_key_source_with_other_width() {
    let pass = BatchAssembler::new(2).unwrap();
    let pass = pass.add_from_source(&Bytes2, Ok([1, 2])).unwrap();
    let pass = pass.add_from_source(&Bytes2, Ok([1, 2])).unwrap();
    let pass = pass.add_from_source(&Bytes2, Ok([3, 4])).unwrap();
    let rb = pass.finish("b", "k").unwrap().batch;
    assert_eq!(key_column(&rb), vec![1, 2, 1, 2, 3, 4]);
    let dict = rb.column(0).as_dictionary::<Int64Type>();
    let codes: Vec<i64> = dict.keys().values().iter().copied().collect();
    assert_eq!(codes, vec![0, 0, 0, 0, 1, 1]);
    assert_eq!(dict.values().len(), 2);
}

#[test]
fn uuid_bytes_are_big_endian() {
    let b = bucket_of_uuid(0x0102_0304_0506_0708_090a_0b0c_0d0e_0f10);
    assert_eq!(b, [1, 2, 3, 4, 5, 6, 7, 8, 9, 10, 11, 12, 13, 14, 15, 16]);
    assert_eq!(uuid_of_bucket(b), 0x0102_0304_0506_0708_090a_0b0c_0d0e_0f10);
    assert_eq!(bucket_of_uuid(1), [0, 0, 0, 0, 0, 0, 0, 0, 0, 0, 0, 0, 0, 0, 0, 1]);
    assert_eq!(uuid_of_bucket([0xff; 16]), u128::MAX);
}

#[test]
fn uuid_item_conversion() {
    let ok = bucket_item_of_uuid(Ok(256)).unwrap();
    assert_eq!(ok, [0, 0, 0, 0, 0, 0, 0, 0, 0, 0, 0, 0, 0, 0, 1, 0]);
    let err = bucket_item_of_uuid(Err(io::Error::other("bad uuid"))).unwrap_err();
    assert_eq!(err.to_string(), "bad uuid");
}

#[test]
fn uuid_keys_adapter_decodes_bucket() {
    let src = Serials(vec![(I2, vec![11])]);
    let keys = src.get_keys(bucket_of_uuid(I2)).unwrap();
    assert_eq!(keys, vec![11]);
    assert!(src.get_keys(bucket_of_uuid(I1)).is_err());
}
