//! The table format of the data file, read and written by the `csv` crate.
//!
//! Nothing in this module is verified: it states what the rest of the crate
//! takes on trust from `csv`. The contents of a table are named, not spelled
//! out, and the only claim made of them is that the same input always gives
//! the same result.

use vstd::prelude::*;

verus! {

/// The error type of the `csv` crate.
#[verifier::external_type_specification]
#[verifier::external_body]
pub struct ExCsvError(csv::Error);

/// The records that `csv` reads from `bytes` with its default settings: the
/// first record is taken as a header and left out, and all records must have
/// as many fields as the first. `None` where `csv` reports an error for any
/// record.
pub uninterp spec fn csv_records(bytes: Seq<u8>) -> Option<Seq<Seq<Seq<char>>>>;

/// The bytes that `csv` writes for `rows` with its default settings, one
/// record per row. `None` where `csv` reports an error.
pub uninterp spec fn csv_bytes(rows: Seq<Seq<Seq<char>>>) -> Option<Seq<u8>>;

/// Calls `csv::Reader::from_reader` on the bytes and collects what
/// `Reader::records` yields, each record as the list of its fields. The
/// result is `Ok` exactly where every record was read without error, and it
/// is the named table [`csv_records`] of the bytes.
#[verifier::external_body]
pub(crate) fn read_records(bytes: &[u8]) -> (r: Result<Vec<Vec<String>>, csv::Error>)
    ensures
        match r {
            Ok(rows) => csv_records(bytes@) == Some(rows.deep_view()),
            Err(_) => csv_records(bytes@) is None,
        },
{
    let mut reader = csv::Reader::from_reader(bytes);
    let mut rows = Vec::new();
    for record in reader.records() {
        rows.push(record?.iter().map(String::from).collect());
    }
    Ok(rows)
}

/// Calls `csv::Writer::write_record` for each row on a writer made by
/// `csv::Writer::from_writer` over an empty buffer, and returns the buffer
/// from `Writer::into_inner`. The result is `Ok` exactly where no call
/// reported an error, and it is the named text [`csv_bytes`] of the rows.
#[verifier::external_body]
pub(crate) fn write_records(rows: &Vec<Vec<String>>) -> (r: Result<Vec<u8>, csv::Error>)
    ensures
        match r {
            Ok(bytes) => csv_bytes(rows.deep_view()) == Some(bytes@),
            Err(_) => csv_bytes(rows.deep_view()) is None,
        },
{
    let mut writer = csv::Writer::from_writer(Vec::new());
    for row in rows {
        writer.write_record(row)?;
    }
    writer.into_inner().map_err(|e| csv::Error::from(e.into_error()))
}

/// The message of a `csv` error, as its `Display` impl writes it.
#[verifier::external_body]
pub(crate) fn error_text(error: &csv::Error) -> String {
    error.to_string()
}

} // verus!
