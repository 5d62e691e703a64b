//! One assembly pass: buckets are added one at a time, in the order they
//! arrive, and the pass is finished into a two-column table.

use vstd::prelude::*;

use arrow::error::ArrowError;

use crate::columns::BucketDictionary;
use crate::columns::KeyColumn;
use crate::columns::KeyTable;
use crate::columns::concat_key_columns;
use crate::columns::finish_bucket_dictionary;
use crate::columns::key_column_of;
use crate::columns::key_table_of;
use crate::columns::table_bucket_type_width;
use crate::columns::table_field_nullable;
use crate::columns::table_key_type_is_int64;
use crate::columns::table_null_counts;
use crate::columns::table_bucket_codes;
use crate::columns::table_bucket_name;
use crate::columns::table_bucket_values;
use crate::columns::table_key_name;
use crate::columns::table_keys;
use crate::columns::codes_in_range;
use crate::columns::decoded;
use crate::columns::dictionary_codes;
use crate::columns::dictionary_values;
use crate::columns::dictionary_width;
use crate::columns::distinct_values;
use crate::columns::joined;
use crate::columns::key_values;
use crate::columns::new_bucket_dictionary;
use crate::sources::SimpleKeysSource;

verus! {

/// Why an assembly failed. The failed pass is consumed with it: no partial
/// table can be had.
#[derive(Debug)]
pub enum AssemblyError {
    /// The bucket source failed to give an identifier.
    Bucket(std::io::Error),
    /// The key source failed on a bucket.
    Keys(std::io::Error),
    /// The dictionary encoder refused an identifier (wrong width, or no
    /// code left).
    Encoding(ArrowError),
    /// An identifier width beyond what arrow takes (an `i32`).
    WidthTooLarge,
    /// The key arrays could not be concatenated (their data types differ).
    Concatenation(ArrowError),
    /// The table could not be built from its two columns.
    TableConstruction(ArrowError),
}

/// The bucket column that a sequence of (identifier, keys) pairs yields:
/// each identifier repeated once per key, in order.
pub open spec fn bucket_rows(buckets: Seq<(Seq<u8>, Seq<i64>)>) -> Seq<Seq<u8>>
    decreases buckets.len(),
{
    if buckets.len() == 0 {
        Seq::empty()
    } else {
        let (id, keys) = buckets.last();
        bucket_rows(buckets.drop_last()) + Seq::new(keys.len(), |i: int| id)
    }
}

/// The key column that a sequence of (identifier, keys) pairs yields: the
/// key arrays end to end, in order.
pub open spec fn key_rows(buckets: Seq<(Seq<u8>, Seq<i64>)>) -> Seq<i64>
    decreases buckets.len(),
{
    if buckets.len() == 0 {
        Seq::empty()
    } else {
        key_rows(buckets.drop_last()) + buckets.last().1
    }
}

/// Both columns of a successful assembly have one row per key: the bucket
/// column and the key column are row-aligned.
pub proof fn lemma_rows_aligned(buckets: Seq<(Seq<u8>, Seq<i64>)>)
    ensures
        bucket_rows(buckets).len() == key_rows(buckets).len(),
    decreases buckets.len(),
{
    if buckets.len() > 0 {
        lemma_rows_aligned(buckets.drop_last());
    }
}

/// Assembly keeps order: the rows of buckets `a` followed by buckets `b`
/// are the rows of `a` followed by the rows of `b`, in both columns.
pub proof fn lemma_rows_in_order(a: Seq<(Seq<u8>, Seq<i64>)>, b: Seq<(Seq<u8>, Seq<i64>)>)
    ensures
        bucket_rows(a + b) == bucket_rows(a) + bucket_rows(b),
        key_rows(a + b) == key_rows(a) + key_rows(b),
    decreases b.len(),
{
    if b.len() == 0 {
        assert(a + b =~= a);
        assert(bucket_rows(a) + bucket_rows(b) =~= bucket_rows(a));
        assert(key_rows(a) + key_rows(b) =~= key_rows(a));
    } else {
        lemma_rows_in_order(a, b.drop_last());
        assert((a + b).drop_last() =~= a + b.drop_last());
        assert((a + b).last() == b.last());
        let (id, keys) = b.last();
        assert(bucket_rows(a + b) =~= bucket_rows(a) + bucket_rows(b.drop_last()) + Seq::new(keys.len(), |i: int| id));
        assert(key_rows(a + b) =~= key_rows(a) + key_rows(b.drop_last()) + keys);
    }
}

/// A bucket without keys, wherever it stands, contributes no row to either
/// column.
pub proof fn lemma_empty_bucket_invisible(
    a: Seq<(Seq<u8>, Seq<i64>)>,
    id: Seq<u8>,
    b: Seq<(Seq<u8>, Seq<i64>)>,
)
    ensures
        bucket_rows(a.push((id, Seq::empty())) + b) == bucket_rows(a + b),
        key_rows(a.push((id, Seq::empty())) + b) == key_rows(a + b),
{
    let a2 = a.push((id, Seq::<i64>::empty()));
    lemma_rows_in_order(a2, b);
    lemma_rows_in_order(a, b);
    assert(a2.drop_last() =~= a);
    assert(bucket_rows(a2) =~= bucket_rows(a));
    assert(key_rows(a2) =~= key_rows(a));
}

/// A single bucket yields its identifier once per key, under one repeated
/// code, and its key array unchanged.
pub proof fn lemma_single_bucket(id: Seq<u8>, keys: Seq<i64>, values: Seq<Seq<u8>>, codes: Seq<i64>)
    requires
        distinct_values(values),
        codes_in_range(values, codes),
        decoded(values, codes) == bucket_rows(seq![(id, keys)]),
    ensures
        bucket_rows(seq![(id, keys)]) == Seq::new(keys.len(), |i: int| id),
        key_rows(seq![(id, keys)]) == keys,
        codes.len() == keys.len(),
        forall|i: int, j: int| 0 <= i < codes.len() && 0 <= j < codes.len() ==> codes[i] == codes[j],
{
    let one = seq![(id, keys)];
    assert(one.len() == 1);
    assert(one.last() == (id, keys));
    assert(one.drop_last() =~= Seq::<(Seq<u8>, Seq<i64>)>::empty());
    assert(bucket_rows(one.drop_last()) =~= Seq::<Seq<u8>>::empty());
    assert(key_rows(one.drop_last()) =~= Seq::<i64>::empty());
    assert(bucket_rows(one) =~= Seq::new(keys.len(), |i: int| id));
    assert(key_rows(one) =~= keys);
    assert(decoded(values, codes).len() == codes.len());
    assert forall|i: int, j: int| 0 <= i < codes.len() && 0 <= j < codes.len() implies codes[i] == codes[j] by {
        assert(decoded(values, codes)[i] == values[codes[i] as int]);
        assert(decoded(values, codes)[j] == values[codes[j] as int]);
        if codes[i] < codes[j] {
            assert(values[codes[i] as int] != values[codes[j] as int]);
        } else if codes[j] < codes[i] {
            assert(values[codes[j] as int] != values[codes[i] as int]);
        }
    }
}

/// The state of one assembly pass.
pub struct BatchAssembler {
    width: usize,
    dict: BucketDictionary,
    pending: Vec<KeyColumn>,
    added: Ghost<Seq<(Seq<u8>, Seq<i64>)>>,
}

impl BatchAssembler {
    /// The (identifier, keys) pairs added so far, in order.
    pub closed spec fn buckets(&self) -> Seq<(Seq<u8>, Seq<i64>)> {
        self.added@
    }

    /// The identifier width of this pass.
    pub closed spec fn width(&self) -> nat {
        self.width as nat
    }

    /// The distinct identifiers registered so far, in order of first use.
    pub closed spec fn dictionary(&self) -> Seq<Seq<u8>> {
        dictionary_values(self.dict)
    }

    /// The encoder holds each registered identifier once, its codes decode to
    /// the bucket column of the buckets added, and the pending key arrays
    /// join to their key column.
    pub closed spec fn wf(&self) -> bool {
        &&& self.width <= i32::MAX
        &&& dictionary_width(self.dict) == self.width
        &&& distinct_values(dictionary_values(self.dict))
        &&& codes_in_range(dictionary_values(self.dict), dictionary_codes(self.dict))
        &&& decoded(dictionary_values(self.dict), dictionary_codes(self.dict)) == bucket_rows(self.added@)
        &&& self.pending@.len() == self.added@.len()
        &&& joined(self.pending@.map_values(|k: KeyColumn| key_values(k))) == key_rows(self.added@)
    }

    /// Starts a pass over identifiers of `width` bytes. Arrow takes a byte
    /// width as an `i32`: a larger width is refused.
    pub fn new(width: usize) -> (r: Result<Self, AssemblyError>)
        ensures
            r is Err <==> width > i32::MAX,
            r matches Err(e) ==> e is WidthTooLarge,
            r matches Ok(a) ==> {
                &&& a.wf()
                &&& a.width() == width
                &&& a.buckets() == Seq::<(Seq<u8>, Seq<i64>)>::empty()
                &&& a.dictionary() == Seq::<Seq<u8>>::empty()
            },
    {
        if width > i32::MAX as usize {
            return Err(AssemblyError::WidthTooLarge);
        }
        let r = BatchAssembler {
            width,
            dict: new_bucket_dictionary(width as i32),
            pending: Vec::new(),
            added: Ghost(Seq::empty()),
        };
        assert(decoded(dictionary_values(r.dict), dictionary_codes(r.dict)) =~= bucket_rows(r.added@));
        assert(r.pending@.map_values(|k: KeyColumn| key_values(k)) =~= Seq::<Seq<i64>>::empty());
        Ok(r)
    }

    /// Adds one bucket and its keys after those added so far. The identifier
    /// is registered in the dictionary only when the bucket has keys; a
    /// bucket without keys leaves no trace in either column. On a failure
    /// the pass is consumed.
    pub fn add_bucket(self, bucket: &[u8], keys: Vec<i64>) -> (r: Result<Self, AssemblyError>)
        requires
            self.wf(),
        ensures
            r is Ok <==> (keys@.len() == 0 || (bucket@.len() == self.width() && (self.dictionary().contains(bucket@)
                || self.dictionary().len() <= i64::MAX))),
            r matches Err(e) ==> e is Encoding || e is WidthTooLarge,
            r matches Err(e) ==> (e is WidthTooLarge <==> bucket@.len() > i32::MAX),
            r matches Ok(a) ==> {
                &&& a.wf()
                &&& a.width() == self.width()
                &&& a.buckets() == self.buckets().push((bucket@, keys@))
                &&& a.dictionary() == if keys@.len() == 0 || self.dictionary().contains(bucket@) {
                    self.dictionary()
                } else {
                    self.dictionary().push(bucket@)
                }
            },
    {
        let n = keys.len();
        let mut this = self;
        let ghost old_values = dictionary_values(this.dict);
        let ghost old_codes = dictionary_codes(this.dict);
        let ghost new_bucket = (bucket@, keys@);
        if n > 0 {
            if bucket.len() > i32::MAX as usize {
                return Err(AssemblyError::WidthTooLarge);
            }
            match crate::columns::dictionary_append_n(&mut this.dict, bucket, n) {
                Err(e) => {
                    return Err(AssemblyError::Encoding(e));
                },
                Ok(code) => {
                    let ghost values = dictionary_values(this.dict);
                    let ghost codes = dictionary_codes(this.dict);
                    assert(old_values.len() <= values.len());
                    assert forall|i: int| 0 <= i < old_values.len() implies values[i] == old_values[i] by {
                        if !old_values.contains(bucket@) {
                            assert(values[i] == old_values.push(bucket@)[i]);
                        }
                    }
                    assert(distinct_values(values)) by {
                        if !old_values.contains(bucket@) {
                            assert forall|i: int, j: int| 0 <= i < j < values.len() implies values[i] != values[j] by {
                                if j == old_values.len() {
                                    assert(values[j] == bucket@);
                                    if values[i] == bucket@ {
                                        assert(old_values[i] == bucket@);
                                    }
                                }
                            }
                        }
                    }
                    assert(codes_in_range(values, codes)) by {
                        assert forall|i: int| 0 <= i < codes.len() implies 0 <= #[trigger] codes[i] < values.len() by {
                            if i < old_codes.len() {
                                assert(codes[i] == old_codes[i]);
                            }
                        }
                    }
                    assert(decoded(values, codes) =~= bucket_rows(this.added@.push(new_bucket))) by {
                        let rows = bucket_rows(this.added@.push(new_bucket));
                        assert(this.added@.push(new_bucket).drop_last() =~= this.added@);
                        assert forall|i: int| 0 <= i < codes.len() implies #[trigger] decoded(values, codes)[i] == rows[i] by {
                            if i < old_codes.len() {
                                assert(codes[i] == old_codes[i]);
                                assert(decoded(old_values, old_codes)[i] == old_values[old_codes[i] as int]);
                            }
                        }
                    }
                },
            }
        } else {
            assert(this.added@.push(new_bucket).drop_last() =~= this.added@);
            assert(bucket_rows(this.added@.push(new_bucket)) =~= bucket_rows(this.added@));
        }
        let ghost old_pending = this.pending@;
        this.pending.push(crate::columns::key_column_of(keys));
        proof {
            let f = |k: KeyColumn| key_values(k);
            assert(this.pending@.map_values(f).drop_last() =~= old_pending.map_values(f));
            assert(this.added@.push(new_bucket).drop_last() =~= this.added@);
        }
        this.added = Ghost(this.added@.push(new_bucket));
        Ok(this)
    }

    /// Takes the outcome of asking the key source for `bucket`: a failure
    /// fails the pass with that very error; keys are added as by
    /// `add_bucket`.
    pub fn add_fetched(self, bucket: &[u8], keys: Result<Vec<i64>, std::io::Error>) -> (r: Result<Self, AssemblyError>)
        requires
            self.wf(),
        ensures
            keys matches Err(e) ==> r matches Err(AssemblyError::Keys(e2)) && e2 == e,
            keys matches Ok(k) ==> {
                &&& r is Ok <==> (k@.len() == 0 || (bucket@.len() == self.width() && (self.dictionary().contains(bucket@)
                    || self.dictionary().len() <= i64::MAX)))
                &&& r matches Err(e) ==> e is Encoding || e is WidthTooLarge
                &&& r matches Err(e) ==> (e is WidthTooLarge <==> bucket@.len() > i32::MAX)
            },
            r matches Ok(a) ==> {
                &&& a.wf()
                &&& a.width() == self.width()
                &&& a.buckets() == self.buckets().push((bucket@, keys->Ok_0@))
                &&& a.dictionary() == if keys->Ok_0@.len() == 0 || self.dictionary().contains(bucket@) {
                    self.dictionary()
                } else {
                    self.dictionary().push(bucket@)
                }
            },
    {
        match keys {
            Err(e) => Err(AssemblyError::Keys(e)),
            Ok(k) => self.add_bucket(bucket, k),
        }
    }

    /// Takes one item of a bucket source: a failed item fails the pass with
    /// that error; otherwise the keys of the bucket are asked of `ksource`
    /// (a failure there fails the pass with that error) and the bucket is
    /// added as by `add_bucket`.
    pub fn add_from_source<const N: usize, K: SimpleKeysSource<N>>(
        self,
        ksource: &K,
        item: Result<[u8; N], std::io::Error>,
    ) -> (r: Result<Self, AssemblyError>)
        requires
            self.wf(),
        ensures
            item matches Err(e) ==> r matches Err(AssemblyError::Bucket(e2)) && e2 == e,
            item is Ok ==> !(r matches Err(AssemblyError::Bucket(_))),
            r matches Err(e) ==> e is Bucket || e is Keys || e is Encoding || e is WidthTooLarge,
            r matches Ok(a) ==> {
                &&& a.wf()
                &&& a.width() == self.width()
                &&& exists|keys: Seq<i64>| {
                    &&& a.buckets() == self.buckets().push((item->Ok_0@, keys))
                    &&& a.dictionary() == if keys.len() == 0 || self.dictionary().contains(item->Ok_0@) {
                        self.dictionary()
                    } else {
                        self.dictionary().push(item->Ok_0@)
                    }
                }
            },
    {
        match item {
            Err(e) => Err(AssemblyError::Bucket(e)),
            Ok(bucket) => {
                let keys = ksource.get_keys(bucket);
                let ghost fetched = keys;
                let r = self.add_fetched(bucket.as_slice(), keys);
                assert(r matches Ok(a) ==> a.buckets() == self.buckets().push((bucket@, fetched->Ok_0@)));
                r
            },
        }
    }

    /// Finishes the pass into a table whose bucket column is named
    /// `bucket_name` and whose key column is named `key_name`. Both fields
    /// are non-nullable; the bucket field is typed as a dictionary with
    /// `Int64` codes over fixed-width binary values, the key field as
    /// `Int64`. A pass with no bucket gives a table of no row.
    pub fn finish(self, bucket_name: &str, key_name: &str) -> (r: Result<KeyTable, AssemblyError>)
        requires
            self.wf(),
        ensures
            r is Ok,
            r matches Ok(t) ==> {
                &&& table_field_nullable(t) == seq![false, false]
                &&& table_bucket_type_width(t) == Some(self.width() as int)
                &&& table_key_type_is_int64(t)
                &&& table_null_counts(t) == seq![0int, 0int]
                &&& table_bucket_name(t) == bucket_name@
                &&& table_key_name(t) == key_name@
                &&& table_keys(t) == key_rows(self.buckets())
                &&& table_bucket_values(t) == self.dictionary()
                &&& distinct_values(table_bucket_values(t))
                &&& codes_in_range(table_bucket_values(t), table_bucket_codes(t))
                &&& decoded(table_bucket_values(t), table_bucket_codes(t)) == bucket_rows(self.buckets())
                &&& table_bucket_codes(t).len() == table_keys(t).len()
            },
    {
        proof {
            lemma_rows_aligned(self.added@);
        }
        let keys = if self.pending.len() == 0 {
            let k = key_column_of(Vec::new());
            assert(key_values(k) =~= key_rows(self.added@));
            k
        } else {
            match concat_key_columns(&self.pending) {
                Err(e) => {
                    return Err(AssemblyError::Concatenation(e));
                },
                Ok(k) => k,
            }
        };
        let buckets = finish_bucket_dictionary(self.dict);
        match key_table_of(bucket_name, key_name, buckets, keys) {
            Err(e) => Err(AssemblyError::TableConstruction(e)),
            Ok(t) => Ok(t),
        }
    }
}

} // verus!
