//! Port selection with fallback scanning.
//!
//! The requested port is used when it is free; otherwise fixed ranges are
//! scanned in ascending order for the first free port. The shell probes
//! which ports are busy; this module decides, given that knowledge.

use vstd::prelude::*;

verus! {

/// The fallback ranges, scanned in ascending order.
pub open spec fn in_fallback_ranges(p: u16) -> bool {
    ||| 3500 <= p < 3999
    ||| 4001 <= p < 4999
    ||| 5001 <= p < 5999
    ||| 8001 <= p < 8999
}

/// Decides whether `p` is among the busy ports.
fn is_busy(busy: &Vec<u16>, p: u16) -> (r: bool)
    ensures
        r == busy@.contains(p),
{
    let mut i: usize = 0;
    while i < busy.len()
        invariant
            i <= busy@.len(),
            forall|k: int| 0 <= k < i ==> busy@[k] != p,
        decreases busy@.len() - i,
    {
        if busy[i] == p {
            return true;
        }
        i = i + 1;
    }
    proof {
        assert(!busy@.contains(p));
    }
    false
}

/// The first port of `[lo, hi)` not among the busy ports.
fn scan_range(lo: u16, hi: u16, busy: &Vec<u16>) -> (r: Option<u16>)
    requires
        lo <= hi,
    ensures
        r matches Some(p) ==> lo <= p < hi && !busy@.contains(p) && (forall|q: u16|
            lo <= q < p ==> #[trigger] busy@.contains(q)),
        r is None ==> forall|q: u16| lo <= q < hi ==> #[trigger] busy@.contains(q),
{
    let mut p = lo;
    while p < hi
        invariant
            lo <= p <= hi,
            forall|q: u16| lo <= q < p ==> #[trigger] busy@.contains(q),
        decreases hi - p,
    {
        if !is_busy(busy, p) {
            return Some(p);
        }
        p = p + 1;
    }
    None
}

/// Scans the fallback ranges, in ascending order, for the first free port.
///
/// A found port is free, lies in the ranges, and every smaller port of the
/// ranges is busy; when the whole space is busy there is no port.
pub fn get_available(busy: &Vec<u16>) -> (r: Option<u16>)
    ensures
        r matches Some(p) ==> in_fallback_ranges(p) && !busy@.contains(p) && (forall|q: u16|
            in_fallback_ranges(q) && q < p ==> #[trigger] busy@.contains(q)),
        r is None ==> forall|q: u16| in_fallback_ranges(q) ==> #[trigger] busy@.contains(q),
{
    match scan_range(3500, 3999, busy) {
        Some(p) => Some(p),
        None => match scan_range(4001, 4999, busy) {
            Some(p) => Some(p),
            None => match scan_range(5001, 5999, busy) {
                Some(p) => Some(p),
                None => match scan_range(8001, 8999, busy) {
                    Some(p) => Some(p),
                    None => None,
                },
            },
        },
    }
}

/// Picks the requested port when it is free, else falls back to the scan.
///
/// When the requested port is busy, any port returned differs from it, lies
/// in the fallback ranges and is the smallest free one there; exhaustion is
/// reported, never an arbitrary port.
pub fn default_or_available(port: u16, busy: &Vec<u16>) -> (r: Option<u16>)
    ensures
        !busy@.contains(port) ==> r == Some(port),
        busy@.contains(port) ==> ({
            &&& r matches Some(p) ==> p != port && in_fallback_ranges(p) && !busy@.contains(p)
                && (forall|q: u16|
                in_fallback_ranges(q) && q < p ==> #[trigger] busy@.contains(q))
            &&& r is None ==> forall|q: u16|
                in_fallback_ranges(q) ==> #[trigger] busy@.contains(q)
        }),
{
    if !is_busy(busy, port) {
        Some(port)
    } else {
        get_available(busy)
    }
}

} // verus!
