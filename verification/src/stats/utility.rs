//! Utility functions for statistics processing.

use vstd::prelude::*;
use super::state::spec_codes_valid;

verus! {

/// What the status line for an HTTP status code reads: a function of the
/// code alone (code 200 reads `"200 OK"`).
pub uninterp spec fn status_label_of(code: u16) -> Seq<char>;

/// Relies on http's `StatusCode` (re-exported by axum): `from_u16`
/// accepts exactly the codes from 100 to 999, and the display form is the
/// code followed by its canonical reason phrase, a fixed table.
#[verifier::external_body]
fn status_label(code: u16) -> (r: String)
    requires
        100 <= code < 1000,
    ensures
        r@ == status_label_of(code),
{
    match axum::http::StatusCode::from_u16(code) {
        Ok(status) => status.to_string(),
        // from_u16 accepts the whole required range, so this arm is
        // unreachable; an empty label is still a safe fallback.
        Err(_) => String::new(),
    }
}

//		serialize_status_codes
/// Renders the status-code counters for a report: each code becomes its
/// status line against its count, in the counters' ascending code order.
pub fn serialize_status_codes(codes: &Vec<(u16, u64)>) -> (r: Vec<(String, u64)>)
    requires
        spec_codes_valid(codes@),
    ensures
        r@.len() == codes@.len(),
        forall|i: int|
            0 <= i < codes@.len() ==> (#[trigger] r@[i]).0@ == status_label_of(codes@[i].0)
                && r@[i].1 == codes@[i].1,
{
    let mut out: Vec<(String, u64)> = Vec::new();
    let mut i: usize = 0;
    while i < codes.len()
        invariant
            0 <= i <= codes@.len(),
            spec_codes_valid(codes@),
            out@.len() == i,
            forall|j: int|
                0 <= j < i ==> (#[trigger] out@[j]).0@ == status_label_of(codes@[j].0)
                    && out@[j].1 == codes@[j].1,
        decreases codes@.len() - i,
    {
        let entry = codes[i];
        out.push((status_label(entry.0), entry.1));
        i = i + 1;
    }
    out
}

} // verus!
