//! Delimited text, read with the csv crate.

use vstd::prelude::*;

verus! {

/// `csv::Reader`, the csv crate's reader of records.
#[verifier::external_type_specification]
#[verifier::external_body]
#[verifier::reject_recursive_types(R)]
pub struct ExReader<R>(csv::Reader<R>);

/// `csv::StringRecord`, a record whose fields are text.
#[verifier::external_type_specification]
#[verifier::external_body]
pub struct ExStringRecord(csv::StringRecord);

/// `csv::Error`, the error of the csv crate's reader. Nothing is known of
/// what it holds.
#[verifier::external_type_specification]
#[verifier::external_body]
pub struct ExCsvError(csv::Error);

/// What the csv crate's reader finds in `bytes`, record by record: the
/// record's fields, or `None` for a record that the crate refuses. The
/// first record is left out where `has_headers` is set. What these records
/// are is left to the crate: nothing is stated of them here.
pub uninterp spec fn csv_records(bytes: Seq<u8>, has_headers: bool) -> Seq<Option<Seq<Seq<char>>>>;

/// The records that a reader has yet to give, as `csv_records` has them.
pub uninterp spec fn unread(reader: csv::Reader<&[u8]>) -> Seq<Option<Seq<Seq<char>>>>;

/// The fields that a record holds.
pub uninterp spec fn fields_of(record: csv::StringRecord) -> Seq<Seq<char>>;

/// Makes a reader of `bytes` with `csv::ReaderBuilder::from_reader`, on a
/// builder with `has_headers` as given and its other settings as they are
/// by default. The contract names what the reader will give.
#[verifier::external_body]
fn open_reader<'a>(bytes: &'a [u8], has_headers: bool) -> (reader: csv::Reader<&'a [u8]>)
    ensures
        unread(reader) == csv_records(bytes@, has_headers),
{
    csv::ReaderBuilder::new().has_headers(has_headers).from_reader(bytes)
}

/// Makes an empty record with `csv::StringRecord::new`, for a reader to
/// fill.
#[verifier::external_body]
fn empty_record() -> (record: csv::StringRecord)
    ensures
        fields_of(record).len() == 0,
{
    csv::StringRecord::new()
}

/// Reads one record with `csv::Reader::read_record`. The crate returns
/// `Ok(true)` with the next record in `record`, after which the reader
/// stands behind that record; `Ok(false)` where no record is left; and an
/// error where it refuses the next record.
#[verifier::external_body]
fn read_record(reader: &mut csv::Reader<&[u8]>, record: &mut csv::StringRecord) -> (r: Result<
    bool,
    csv::Error,
>)
    ensures
        match r {
            Ok(true) => unread(*old(reader)).len() > 0 && unread(*old(reader))[0] == Some(
                fields_of(*final(record)),
            ) && unread(*final(reader)) == unread(*old(reader)).drop_first(),
            Ok(false) => unread(*old(reader)).len() == 0,
            Err(_) => unread(*old(reader)).len() > 0 && unread(*old(reader))[0] is None,
        },
{
    reader.read_record(record)
}

/// Hands out the fields of a record, which `csv::StringRecord::iter` walks
/// in order, each as a string of its own.
#[verifier::external_body]
fn record_fields(record: &csv::StringRecord) -> (cells: Vec<String>)
    ensures
        cells.deep_view() == fields_of(*record),
{
    record.iter().map(String::from).collect()
}

/// Whether none of `records` was refused.
pub open spec fn all_read(records: Seq<Option<Seq<Seq<char>>>>) -> bool {
    forall|i: int| 0 <= i < records.len() ==> (#[trigger] records[i]) is Some
}

/// The rows that `records` hold, unless one of them was refused.
pub open spec fn rows_of(records: Seq<Option<Seq<Seq<char>>>>) -> Option<Seq<Seq<Seq<char>>>> {
    if all_read(records) {
        Some(Seq::new(records.len(), |i: int| records[i]->0))
    } else {
        None
    }
}

/// Reads all the records of `bytes`, each as its row of fields. The first
/// record that is refused ends the reading with nothing.
pub fn read_rows(bytes: &[u8], has_headers: bool) -> (rows: Option<Vec<Vec<String>>>)
    ensures
        rows.deep_view() == rows_of(csv_records(bytes@, has_headers)),
{
    let mut reader = open_reader(bytes, has_headers);
    let mut record = empty_record();
    let mut rows: Vec<Vec<String>> = Vec::new();
    let ghost all = csv_records(bytes@, has_headers);
    loop
        invariant
            all == csv_records(bytes@, has_headers),
            rows.len() <= all.len(),
            unread(reader) == all.skip(rows.len() as int),
            forall|j: int| 0 <= j < rows.len() ==> (#[trigger] all[j]) == Some(rows@[j].deep_view()),
        decreases all.len() - rows.len(),
    {
        match read_record(&mut reader, &mut record) {
            Ok(true) => {
                let cells = record_fields(&record);
                assert(all.skip(rows.len() as int)[0] == all[rows.len() as int]);
                assert(all.skip(rows.len() as int).drop_first() =~= all.skip(rows.len() + 1));
                rows.push(cells);
            },
            Ok(false) => {
                assert(rows.deep_view() =~= Seq::new(all.len(), |i: int| all[i]->0));
                return Some(rows);
            },
            Err(_) => {
                assert(all.skip(rows.len() as int)[0] == all[rows.len() as int]);
                return None;
            },
        }
    }
}

} // verus!
