use vstd::prelude::*;

verus! {

/// The identifier that follows `cur`: one more, wrapping from the largest value back to 1.
pub open spec fn next_pubuid_spec(cur: u32) -> u32 {
    if cur == u32::MAX {
        1
    } else {
        (cur + 1) as u32
    }
}

/// The subscriber identifier that follows `cur`: one more, wrapping from the largest value back to 1.
pub open spec fn next_subuid_spec(cur: i32) -> i32 {
    if cur == i32::MAX {
        1
    } else {
        (cur + 1) as i32
    }
}

/// Advances a publisher id counter and returns the new id, which is never 0.
pub fn next_pubuid(counter: &mut u32) -> (r: u32)
    ensures
        r == next_pubuid_spec(*old(counter)),
        *final(counter) == r,
        r != 0,
{
    let new_id = match counter.checked_add(1) {
        Some(n) => n,
        None => 1,
    };
    *counter = new_id;
    new_id
}

/// Advances a subscriber id counter and returns the new id. Starting from a
/// non-negative counter the new id is positive.
pub fn next_subuid(counter: &mut i32) -> (r: i32)
    ensures
        r == next_subuid_spec(*old(counter)),
        *final(counter) == r,
        *old(counter) >= 0 ==> r > 0,
{
    let new_id = match counter.checked_add(1) {
        Some(n) => n,
        None => 1,
    };
    *counter = new_id;
    new_id
}

} // verus!
