use node_sweep::{
    calculate_dir_size, confirms_deletion, deletion_allowed, estimate_total, format_size,
    is_yes_answer, next_after_scan, NextStep, SizeEntry, SizeReading, SizeUnit, Stats,
};

fn reading(unit: SizeUnit, whole: u64, hundredths: u64) -> SizeReading {
    SizeReading { unit, whole, hundredths }
}

#[test]
fn end_to_end_tallies() {
    let dir = SizeEntry { is_file: false, len: Some(0) };
    let a = vec![dir, SizeEntry { is_file: true, len: Some(10) }];
    let b = vec![dir, dir, dir, SizeEntry { is_file: true, len: Some(5) }];
    let sa = calculate_dir_size(&a).unwrap();
    let sb = calculate_dir_size(&b).unwrap();
    assert_eq!(estimate_total(&vec![Some(sa), Some(sb)]), 15);
    let mut stats = Stats::new(2, 15);
    assert!(stats.record_deletion(sa, 100));
    assert!(stats.record_deletion(sb, 300));
    assert_eq!(stats.folders_processed(), 2);
    assert_eq!(stats.size_freed(), 15);
    assert_eq!(stats.folders_found(), 2);
    assert_eq!(stats.total_size(), 15);
}

#[test]
fn stats_refuse_more_than_found() {
    let mut stats = Stats::new(1, 9);
    assert!(stats.record_deletion(9, 10));
    assert!(!stats.record_deletion(9, 10));
    assert_eq!(stats.folders_processed(), 1);
    assert_eq!(stats.size_freed(), 9);
}

#[test]
fn stats_saturate_freed_bytes() {
    let mut stats = Stats::new(2, 0);
    assert!(stats.record_deletion(u64::MAX, 0));
    assert!(stats.record_deletion(5, 0));
    assert_eq!(stats.size_freed(), u64::MAX);
}

#[test]
fn eta_from_mean_time() {
    let mut stats = Stats::new(5, 0);
    assert_eq!(stats.eta_nanos(), 0);
    assert!(stats.record_deletion(1, 100));
    assert!(stats.record_deletion(1, 300));
    // mean 200 ns, three to go
    assert_eq!(stats.eta_nanos(), 600);
    let mut big = Stats::new(3, 0);
    assert!(big.record_deletion(0, u64::MAX));
    assert_eq!(big.eta_nanos(), u64::MAX);
}

#[test]
fn format_size_units() {
    assert_eq!(format_size(0), reading(SizeUnit::B, 0, 0));
    assert_eq!(format_size(15), reading(SizeUnit::B, 15, 0));
    assert_eq!(format_size(1023), reading(SizeUnit::B, 1023, 0));
    assert_eq!(format_size(1024), reading(SizeUnit::KB, 1, 0));
    assert_eq!(format_size(1536), reading(SizeUnit::KB, 1, 50));
    assert_eq!(format_size(1048575), reading(SizeUnit::KB, 1024, 0));
    assert_eq!(format_size(1048576), reading(SizeUnit::MB, 1, 0));
    assert_eq!(format_size(5 * 1073741824 + 1073741824 / 4), reading(SizeUnit::GB, 5, 25));
    assert_eq!(format_size(1099511627776 * 3), reading(SizeUnit::TB, 3, 0));
    assert_eq!(format_size(u64::MAX), reading(SizeUnit::TB, 16777216, 0));
}

#[test]
fn format_size_rounds_ties_to_even() {
    // 1152 bytes are exactly 1.125 KB, 1408 bytes 1.375 KB
    assert_eq!(format_size(1152), reading(SizeUnit::KB, 1, 12));
    assert_eq!(format_size(1408), reading(SizeUnit::KB, 1, 38));
    // 1.2345... KB rounds down, 1.9999 KB rounds up to 2.00
    assert_eq!(format_size(1264), reading(SizeUnit::KB, 1, 23));
    assert_eq!(format_size(2047), reading(SizeUnit::KB, 2, 0));
}

#[test]
fn unit_symbols() {
    assert_eq!(SizeUnit::B.symbol(), "B");
    assert_eq!(SizeUnit::KB.symbol(), "KB");
    assert_eq!(SizeUnit::MB.symbol(), "MB");
    assert_eq!(SizeUnit::GB.symbol(), "GB");
    assert_eq!(SizeUnit::TB.symbol(), "TB");
}

#[test]
fn confirmation_needs_yes() {
    assert!(confirms_deletion("yes\n"));
    assert!(confirms_deletion("  YES \r\n"));
    assert!(confirms_deletion("Yes"));
    assert!(!confirms_deletion("no\n"));
    assert!(!confirms_deletion("y\n"));
    assert!(!confirms_deletion("yess"));
    assert!(!confirms_deletion(""));
    assert!(!confirms_deletion("y es"));
}

#[test]
fn yes_answer_is_exact() {
    assert!(is_yes_answer("yes"));
    assert!(!is_yes_answer("YES"));
    assert!(!is_yes_answer(" yes"));
    assert!(!is_yes_answer("yep"));
}

#[test]
fn dry_run_and_cancel_delete_nothing() {
    assert!(!deletion_allowed(true, true));
    assert!(!deletion_allowed(true, false));
    assert!(!deletion_allowed(false, false));
    assert!(deletion_allowed(false, true));
    assert!(!deletion_allowed(false, confirms_deletion("nope")));
}

#[test]
fn step_after_scan() {
    assert_eq!(next_after_scan(0, false), NextStep::NothingFound);
    assert_eq!(next_after_scan(0, true), NextStep::NothingFound);
    assert_eq!(next_after_scan(2, true), NextStep::DryRunDone);
    assert_eq!(next_after_scan(2, false), NextStep::Confirm);
}
