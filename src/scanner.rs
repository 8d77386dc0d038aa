//! Splitting a command line into fields with `scan_fmt`.

use vstd::prelude::*;

verus! {

/// The texts that `scan_fmt`'s scanner picks out of `input` for the
/// placeholders of `format`, in order.
pub uninterp spec fn scanned_fields(input: Seq<char>, format: Seq<char>) -> Seq<Seq<char>>;

/// The one format this library scans with: the keyword `insert` and three
/// blank-separated fields.
pub open spec fn insert_format() -> Seq<char> {
    "insert {} {} {}"@
}

/// Relies on `scan_fmt::parse::scan`: it walks `format` and `input` side by
/// side and returns, in order, the text that each placeholder of `format`
/// matched. What it returns depends on the two texts alone. Only the insert
/// format is admitted: on some other formats the scanner indexes past the
/// end of its input or of the format and panics (an unterminated regex
/// placeholder, a float placeholder that reaches the end of the input), or
/// overflows an index (a very large width); on this format it does neither.
#[verifier::external_body]
pub(crate) fn scan_fields(input: &str, format: &str) -> (r: Vec<String>)
    requires
        format@ == insert_format(),
    ensures
        r.deep_view() == scanned_fields(input@, format@),
{
    scan_fmt::parse::scan(input, format).collect()
}

} // verus!
