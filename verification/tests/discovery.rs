use join_leave_notifier::discovery::{get_newest_log_path, is_log_file, LogSource};

fn source(name: &str, mtime: u64) -> LogSource {
    LogSource { path: name.as_bytes().to_vec(), last_modified: mtime }
}

#[test]
fn name_filter_requires_prefix_and_suffix() {
    assert!(is_log_file(b"output_log_2022.txt"));
    assert!(is_log_file(b"output_log_.txt"));
    assert!(!is_log_file(b"output_log_2022.json"));
    assert!(!is_log_file(b"other_log_2022.txt"));
    assert!(!is_log_file(b"output_log"));
    assert!(!is_log_file(b""));
}

#[test]
fn newest_matching_file_wins() {
    let entries = vec![
        source("output_log_a.txt", 1),
        source("output_log_b.txt", 5),
        source("output_log_c.json", 9),
    ];
    let r = get_newest_log_path(&entries);
    assert_eq!(r, Some(b"output_log_b.txt".to_vec()));
}

#[test]
fn no_qualifying_entry_means_no_source() {
    let entries = vec![source("notes.txt", 3), source("output_log_x.json", 9)];
    assert_eq!(get_newest_log_path(&entries), None);
    assert_eq!(get_newest_log_path(&Vec::new()), None);
}

#[test]
fn modification_time_tie_breaks_by_greatest_name() {
    let entries = vec![
        source("output_log_a.txt", 7),
        source("output_log_c.txt", 7),
        source("output_log_b.txt", 7),
    ];
    let r = get_newest_log_path(&entries);
    assert_eq!(r, Some(b"output_log_c.txt".to_vec()));
}

#[test]
fn order_of_listing_does_not_matter_for_distinct_times() {
    let entries = vec![
        source("output_log_new.txt", 9),
        source("output_log_old.txt", 2),
    ];
    assert_eq!(
        get_newest_log_path(&entries),
        Some(b"output_log_new.txt".to_vec())
    );
    let flipped = vec![
        source("output_log_old.txt", 2),
        source("output_log_new.txt", 9),
    ];
    assert_eq!(
        get_newest_log_path(&flipped),
        Some(b"output_log_new.txt".to_vec())
    );
}
