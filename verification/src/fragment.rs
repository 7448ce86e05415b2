//! The request for one fragment of a resource and the check of its response.
use vstd::prelude::*;
use vstd::string::*;
use crate::decimal::{
    IntErrorKind, ascii_bytes, decimal_digits, lemma_decimal_digits_are_digits,
    lemma_parse_decimal_roundtrip, parse_u64_spec, u64_to_decimal,
};

verus! {

/// The value of the `Range` header that asks for bytes `start` to `end`,
/// both included.
pub open spec fn range_header_spec(start: u64, end: u64) -> Seq<char> {
    "bytes="@ + decimal_digits(start as nat) + "-"@ + decimal_digits(end as nat)
}

/// The value of the `Range` header that asks for bytes `start` to `end`:
/// `bytes={start}-{end}`.
pub fn range_header_value(start: u64, end: u64) -> (value: String)
    ensures
        value@ == range_header_spec(start, end),
{
    let mut value = String::from_str("bytes=");
    let first = u64_to_decimal(start);
    value.append(first.as_str());
    value.append("-");
    let last = u64_to_decimal(end);
    value.append(last.as_str());
    value
}

/// The status code of a `206 Partial Content` response.
pub const PARTIAL_CONTENT: u16 = 206;

/// The error reported when a range was asked for and the whole resource, or
/// anything but part of it, came back.
pub open spec fn not_partial_message() -> Seq<char> {
    "The status code wasn't 206 Partial Content!"@
}

/// Checks the status code of the response to a fragment request: a request
/// for a range must be answered with `206 Partial Content`; a request for the
/// whole resource is accepted whatever its status.
pub fn check_fragment_status(range_requested: bool, status: u16) -> (res: Result<(), String>)
    ensures
        res is Err <==> range_requested && status != 206,
        res matches Err(message) ==> message@ == not_partial_message(),
{
    if range_requested && status != PARTIAL_CONTENT {
        return Err(String::from_str("The status code wasn't 206 Partial Content!"));
    }
    Ok(())
}

/// The `Range` header names the requested bounds: it is `bytes=`, then a
/// text without a dash that reads as `start`, a dash, and a text that reads
/// as `end`.
pub proof fn lemma_range_header_names_bounds(start: u64, end: u64)
    ensures
        exists|first: Seq<char>, last: Seq<char>|
            #![trigger parse_u64_spec(ascii_bytes(first)), parse_u64_spec(ascii_bytes(last))]
            range_header_spec(start, end) == "bytes="@ + first + "-"@ + last && !first.contains('-')
                && parse_u64_spec(ascii_bytes(first)) == Ok::<nat, IntErrorKind>(start as nat)
                && parse_u64_spec(ascii_bytes(last)) == Ok::<nat, IntErrorKind>(end as nat),
{
    let first = decimal_digits(start as nat);
    let last = decimal_digits(end as nat);
    lemma_decimal_digits_are_digits(start as nat);
    lemma_parse_decimal_roundtrip(start);
    lemma_parse_decimal_roundtrip(end);
    assert(!first.contains('-')) by {
        if first.contains('-') {
            let k = choose|k: int| 0 <= k < first.len() && first[k] == '-';
            assert('0' <= first[k] <= '9');
        }
    }
    assert(parse_u64_spec(ascii_bytes(first)) == Ok::<nat, IntErrorKind>(start as nat));
    assert(parse_u64_spec(ascii_bytes(last)) == Ok::<nat, IntErrorKind>(end as nat));
}

} // verus!
