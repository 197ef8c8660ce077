use easywind::server::port::{default_or_available, get_available};

fn all_fallback_ports() -> Vec<u16> {
    let mut busy = Vec::new();
    for p in 3500..3999u16 {
        busy.push(p);
    }
    for p in 4001..4999u16 {
        busy.push(p);
    }
    for p in 5001..5999u16 {
        busy.push(p);
    }
    for p in 8001..8999u16 {
        busy.push(p);
    }
    busy
}

#[test]
fn free_requested_port_is_kept() {
    assert_eq!(default_or_available(3500, &vec![]), Some(3500));
    assert_eq!(default_or_available(9999, &vec![1, 2, 3]), Some(9999));
}

#[test]
fn busy_port_falls_back_in_ascending_order() {
    // The requested port is bound elsewhere: the answer differs from it and
    // is the first free port of the fallback ranges.
    assert_eq!(default_or_available(3500, &vec![3500]), Some(3501));
    assert_eq!(default_or_available(8080, &vec![8080, 3500, 3501]), Some(3502));
}

#[test]
fn scan_crosses_range_gaps() {
    let mut busy = vec![4000];
    for p in 3500..3999u16 {
        busy.push(p);
    }
    // The whole first range is busy; the scan moves past the gap.
    assert_eq!(get_available(&busy), Some(4001));
}

#[test]
fn exhausted_ranges_fail_explicitly() {
    let busy = all_fallback_ports();
    assert_eq!(get_available(&busy), None);
    assert_eq!(default_or_available(3600, &busy), None);
}

#[test]
fn last_port_of_space_is_found() {
    let mut busy = all_fallback_ports();
    busy.retain(|p| *p != 8998);
    assert_eq!(get_available(&busy), Some(8998));
}

#[test]
fn requested_port_outside_ranges_still_falls_back() {
    // A busy requested port outside the ranges falls back into them.
    assert_eq!(default_or_available(80, &vec![80]), Some(3500));
}
