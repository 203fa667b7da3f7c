//! Serving a part of a stored file.

use vstd::prelude::*;

verus! {

/// The last byte of a file of `total_len` bytes; zero for an empty file.
pub open spec fn last_byte(total_len: u64) -> u64 {
    if total_len == 0 {
        0
    } else {
        (total_len - 1) as u64
    }
}

/// The first byte that a range asks for: the start of the file where it
/// names none.
pub open spec fn range_start(start: Option<u64>) -> u64 {
    match start {
        Some(s) => s,
        None => 0,
    }
}

/// The last byte that a range gets: the one it names, but never beyond the
/// end of the file, and the end of the file where it names none.
pub open spec fn range_end(end: Option<u64>, total_len: u64) -> u64 {
    match end {
        Some(e) => if e < last_byte(total_len) {
            e
        } else {
            last_byte(total_len)
        },
        None => last_byte(total_len),
    }
}

/// Whether a range can be served from a file of `total_len` bytes.
pub open spec fn range_satisfiable(start: Option<u64>, end: Option<u64>, total_len: u64) -> bool {
    range_start(start) <= range_end(end, total_len) && range_start(start) < total_len
}

/// The bytes to serve for a range request, first and last included, or
/// `None` where the range cannot be served: it starts behind its end or
/// behind the end of the file.
pub fn resolve_range(start: Option<u64>, end: Option<u64>, total_len: u64) -> (r: Option<(u64, u64)>)
    ensures
        r == if range_satisfiable(start, end, total_len) {
            Some((range_start(start), range_end(end, total_len)))
        } else {
            None
        },
        r matches Some((first, last)) ==> first <= last < total_len,
{
    let last_in_file = if total_len == 0 {
        0
    } else {
        total_len - 1
    };
    let first = match start {
        Some(s) => s,
        None => 0,
    };
    let last = match end {
        Some(e) => if e < last_in_file {
            e
        } else {
            last_in_file
        },
        None => last_in_file,
    };
    if first > last || first >= total_len {
        None
    } else {
        Some((first, last))
    }
}

/// The number of bytes that a served range holds.
pub fn range_len(first: u64, last: u64) -> (len: u64)
    requires
        first <= last < u64::MAX,
    ensures
        len == last - first + 1,
{
    last - first + 1
}

} // verus!
