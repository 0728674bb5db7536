//! CSV text split into a header and records by the csv crate.
use vstd::prelude::*;

verus! {

/// The header record of a CSV text under csv's default dialect (comma
/// separated, quoted fields, first record is the header), or `None` where csv
/// reports an error on it.
pub uninterp spec fn csv_header_of(text: Seq<char>) -> Option<Seq<Seq<char>>>;

/// The data records that follow the header of a CSV text, in order: each one's
/// fields, or `None` where csv reports an error on that record (for instance a
/// field count that differs from the header's).
pub uninterp spec fn csv_records_of(text: Seq<char>) -> Seq<Option<Seq<Seq<char>>>>;

/// Relies on `csv::Reader::from_reader` and `csv::Reader::headers`: the header
/// record of the text, or an error.
#[verifier::external_body]
pub(crate) fn csv_header(text: &str) -> (r: Option<Vec<String>>)
    ensures
        r.deep_view() == csv_header_of(text@),
{
    let mut rdr = csv::Reader::from_reader(text.as_bytes());
    rdr.headers().ok().map(|h| h.iter().map(String::from).collect())
}

/// Relies on `csv::Reader::from_reader` and `csv::Reader::into_records`: one
/// item per data record, the record's fields or an error.
#[verifier::external_body]
pub(crate) fn csv_records(text: &str) -> (r: Vec<Option<Vec<String>>>)
    ensures
        r.deep_view() == csv_records_of(text@),
{
    csv::Reader::from_reader(text.as_bytes())
        .into_records()
        .map(|rec| rec.ok().map(|f| f.iter().map(String::from).collect()))
        .collect()
}

} // verus!
