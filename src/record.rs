//! The csv crate's record and error types, as the library sees them.
use vstd::prelude::*;

verus! {

#[verifier::external_type_specification]
#[verifier::external_body]
pub struct ExStringRecord(csv::StringRecord);

#[verifier::external_type_specification]
#[verifier::external_body]
pub struct ExCsvError(csv::Error);

/// The fields of a record, in column order.
pub uninterp spec fn record_fields(r: csv::StringRecord) -> Seq<Seq<char>>;

/// Relies on `csv::StringRecord::len`: the number of fields of the record.
#[verifier::external_body]
pub(crate) fn record_len(r: &csv::StringRecord) -> (n: usize)
    ensures
        n == record_fields(*r).len(),
{
    r.len()
}

/// Relies on `csv::StringRecord::get`: the field at `i`, or `None` past the
/// last field.
#[verifier::external_body]
pub(crate) fn record_get(r: &csv::StringRecord, i: usize) -> (f: Option<&str>)
    ensures
        i < record_fields(*r).len() ==> f is Some && f->Some_0@ == record_fields(*r)[i as int],
        i >= record_fields(*r).len() ==> f is None,
{
    r.get(i)
}

} // verus!
