use node_sweep::{calculate_dir_size, estimate_total, SizeEntry, SizeError};

fn f(len: u64) -> SizeEntry {
    SizeEntry { is_file: true, len: Some(len) }
}

fn d() -> SizeEntry {
    SizeEntry { is_file: false, len: Some(4096) }
}

#[test]
fn size_sums_regular_files_only() {
    // ./b/node_modules: itself, nested/, nested/node_modules/, y.txt
    assert_eq!(calculate_dir_size(&vec![d(), d(), d(), f(5)]), Ok(5));
    assert_eq!(calculate_dir_size(&vec![d(), f(10)]), Ok(10));
    assert_eq!(calculate_dir_size(&vec![d(), f(1), d(), f(2), f(300)]), Ok(303));
    let link = SizeEntry { is_file: false, len: Some(77) };
    assert_eq!(calculate_dir_size(&vec![d(), link, f(3)]), Ok(3));
}

#[test]
fn size_of_empty_directory_is_zero() {
    assert_eq!(calculate_dir_size(&vec![]), Ok(0));
    assert_eq!(calculate_dir_size(&vec![d()]), Ok(0));
}

#[test]
fn size_names_first_unreadable_file() {
    let bad = SizeEntry { is_file: true, len: None };
    let odd_dir = SizeEntry { is_file: false, len: None };
    assert_eq!(
        calculate_dir_size(&vec![d(), odd_dir, f(1), bad, f(2), bad]),
        Err(SizeError::Unreadable { index: 3 })
    );
}

#[test]
fn size_overflow_is_an_error() {
    assert_eq!(calculate_dir_size(&vec![f(u64::MAX), f(1)]), Err(SizeError::Overflow));
    assert_eq!(calculate_dir_size(&vec![f(u64::MAX - 1), f(1)]), Ok(u64::MAX));
}

#[test]
fn total_counts_failures_as_zero() {
    assert_eq!(estimate_total(&vec![Some(10), None, Some(5)]), 15);
    assert_eq!(estimate_total(&vec![]), 0);
    assert_eq!(estimate_total(&vec![Some(u64::MAX), Some(3), None]), u64::MAX);
}
