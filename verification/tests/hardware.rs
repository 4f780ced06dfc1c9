use fintally::server::hardware::{
    mem_total_bytes, parse_gpu_inventory, ram_override_bytes, reported_bytes, select_best_gpu,
};

#[test]
fn meminfo_total_is_read_in_bytes() {
    let meminfo = "MemTotal:       16318412 kB\nMemFree:         1234567 kB\n";
    assert_eq!(mem_total_bytes(meminfo), Some(16318412 * 1024));
    let later = "MemFree: 10 kB\nMemAvailable: 20 kB\nMemTotal: 4 kB\n";
    assert_eq!(mem_total_bytes(later), Some(4096));
}

#[test]
fn meminfo_without_a_usable_total_gives_nothing() {
    assert_eq!(mem_total_bytes(""), None);
    assert_eq!(mem_total_bytes("MemFree: 10 kB\n"), None);
    assert_eq!(mem_total_bytes("MemTotal:\n"), None);
    assert_eq!(mem_total_bytes("MemTotal: lots kB\n"), None);
    assert_eq!(mem_total_bytes("MemFree: 1 kB\n\nMemTotal: 4 kB\n"), None);
    assert_eq!(mem_total_bytes("MemTotal: 18446744073709551615 kB"), None);
}

#[test]
fn ram_overrides_must_be_positive_numbers() {
    assert_eq!(ram_override_bytes(" 8589934592 \n"), Some(8589934592));
    assert_eq!(ram_override_bytes("0"), None);
    assert_eq!(ram_override_bytes("8G"), None);
    assert_eq!(reported_bytes("17179869184\r\n"), Some(17179869184));
    assert_eq!(reported_bytes("0"), Some(0));
    assert_eq!(reported_bytes(""), None);
}

#[test]
fn gpu_listings_are_parsed() {
    let listing = "0, 8192\n1, 24576\nbad line\n2, 0\n3, 24576\n";
    let cards = parse_gpu_inventory(listing);
    assert_eq!(cards, vec![(0, 8192 * 1048576), (1, 24576 * 1048576), (3, 24576 * 1048576)]);
    assert_eq!(parse_gpu_inventory("0, 18446744073709551615"), vec![(0, u64::MAX)]);
}

#[test]
fn the_first_largest_gpu_is_chosen() {
    let cards = vec![(0, 8u64), (1, 24), (3, 24)];
    assert_eq!(select_best_gpu(&cards), Some(1));
    assert_eq!(select_best_gpu(&vec![]), None);
    assert_eq!(select_best_gpu(&vec![(5, 1)]), Some(0));
}
