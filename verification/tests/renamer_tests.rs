//! Behavioural tests of the rename planner.

use autodate::config::AppConfig;
use autodate::renamer::{
    build_candidate, choose_name, plan_rename, FileRenamer, RenameError, MAX_RENAME_ATTEMPTS,
};

fn cfg(format: &str) -> AppConfig {
    AppConfig {
        watch_path: "root".to_string(),
        file_format: format.to_string(),
        delay_seconds: 0,
    }
}

#[test]
fn scenario_new_file_gets_date_name() {
    // A fresh `scan.pdf` lands in an empty directory: the planner picks
    // the bare date-stamped name.
    let path = b"root/scan.pdf".to_vec();
    let date = b"2024-03".to_vec();
    let existing: Vec<Vec<u8>> = vec![];
    let r = plan_rename(&path, &date, &existing).unwrap();
    assert_eq!(r, b"root/2024-03.pdf".to_vec());
}

#[test]
fn scenario_collision_picks_counter_name() {
    // `2024-03.pdf` already exists: the planner picks `2024-03 (1).pdf`.
    let path = b"root/scan2.pdf".to_vec();
    let date = b"2024-03".to_vec();
    let existing = vec![b"2024-03.pdf".to_vec()];
    let r = plan_rename(&path, &date, &existing).unwrap();
    assert_eq!(r, b"root/2024-03 (1).pdf".to_vec());
}

#[test]
fn collision_probe_is_deterministic_and_fills_gaps() {
    // The probe tries candidates in order and takes the first free one,
    // even when later candidates are also taken.
    let date = b"2024-03".to_vec();
    let ext = b"pdf".to_vec();
    let existing = vec![b"2024-03.pdf".to_vec(), b"2024-03 (2).pdf".to_vec()];
    let r = choose_name(&date, &ext, &existing).unwrap();
    assert_eq!(r, b"2024-03 (1).pdf".to_vec());
}

#[test]
fn probe_counts_past_nine() {
    let date = b"2024-03".to_vec();
    let ext = b"pdf".to_vec();
    let mut existing: Vec<Vec<u8>> = vec![];
    for n in 0..12u64 {
        existing.push(build_candidate(&date, &ext, n));
    }
    let r = choose_name(&date, &ext, &existing).unwrap();
    assert_eq!(r, b"2024-03 (12).pdf".to_vec());
}

#[test]
fn probe_gives_up_when_every_candidate_is_taken() {
    let date = b"d".to_vec();
    let ext = b"x".to_vec();
    let mut existing: Vec<Vec<u8>> = vec![];
    for n in 0..MAX_RENAME_ATTEMPTS {
        existing.push(build_candidate(&date, &ext, n));
    }
    let r = choose_name(&date, &ext, &existing);
    assert_eq!(r, Err(RenameError::NoAvailableFilename));
}

#[test]
fn candidate_names_follow_the_documented_shape() {
    let base = b"2024-03".to_vec();
    let ext = b"pdf".to_vec();
    assert_eq!(build_candidate(&base, &ext, 0), b"2024-03.pdf".to_vec());
    assert_eq!(build_candidate(&base, &ext, 1), b"2024-03 (1).pdf".to_vec());
    assert_eq!(build_candidate(&base, &ext, 7), b"2024-03 (7).pdf".to_vec());
    assert_eq!(build_candidate(&base, &ext, 205), b"2024-03 (205).pdf".to_vec());
}

#[test]
fn missing_extension_is_rejected() {
    let r = plan_rename(&b"root/scan".to_vec(), &b"2024-03".to_vec(), &vec![]);
    assert_eq!(r, Err(RenameError::NoExtension));
}

#[test]
fn hidden_file_has_no_extension() {
    let r = plan_rename(&b"root/.bashrc".to_vec(), &b"2024-03".to_vec(), &vec![]);
    assert_eq!(r, Err(RenameError::NoExtension));
}

#[test]
fn missing_parent_is_rejected() {
    let r = plan_rename(&b"scan.pdf".to_vec(), &b"2024-03".to_vec(), &vec![]);
    assert_eq!(r, Err(RenameError::NoParentDirectory));
}

#[test]
fn trailing_dot_means_empty_extension() {
    let r = plan_rename(&b"root/scan.".to_vec(), &b"2024-03".to_vec(), &vec![]).unwrap();
    assert_eq!(r, b"root/2024-03.".to_vec());
}

#[test]
fn backslash_separators_are_recognised() {
    let path = b"c:\\files\\scan.pdf".to_vec();
    let r = plan_rename(&path, &b"2024-03".to_vec(), &vec![]).unwrap();
    assert_eq!(r, b"c:\\files\\2024-03.pdf".to_vec());
}

#[test]
fn rename_file_uses_the_local_date() {
    // End to end with the real clock: the destination carries today's
    // date in the configured format.
    let renamer = FileRenamer::new(cfg("%Y-%m"));
    let before = format!("root/{}.pdf", chrono::Local::now().format("%Y-%m"));
    let r = renamer
        .rename_file(&b"root/scan.pdf".to_vec(), &vec![])
        .unwrap();
    let after = format!("root/{}.pdf", chrono::Local::now().format("%Y-%m"));
    assert!(r == before.clone().into_bytes() || r == after.into_bytes());
}

#[test]
fn rename_file_rejects_malformed_date_pattern() {
    let renamer = FileRenamer::new(cfg("%Q"));
    let r = renamer.rename_file(&b"root/scan.pdf".to_vec(), &vec![]);
    assert_eq!(r, Err(RenameError::InvalidDateFormat));
}

#[test]
fn skip_pattern_keeps_matching_names() {
    let mut renamer = FileRenamer::new(cfg("%Y-%m"));
    renamer.set_skip_pattern("^\\d{4}-\\d{2}$".to_string());
    let path = b"root/2023-11.pdf".to_vec();
    let r = renamer.rename_file(&path, &vec![]).unwrap();
    assert_eq!(r, path);
}

#[test]
fn skip_pattern_lets_other_names_through() {
    let mut renamer = FileRenamer::new(cfg("%Y-%m"));
    renamer.set_skip_pattern("^\\d{4}-\\d{2}$".to_string());
    let before = format!("root/{}.pdf", chrono::Local::now().format("%Y-%m"));
    let r = renamer
        .rename_file(&b"root/scan.pdf".to_vec(), &vec![])
        .unwrap();
    let after = format!("root/{}.pdf", chrono::Local::now().format("%Y-%m"));
    assert!(r == before.clone().into_bytes() || r == after.into_bytes());
}

#[test]
fn malformed_skip_pattern_is_rejected() {
    let mut renamer = FileRenamer::new(cfg("%Y-%m"));
    renamer.set_skip_pattern("(".to_string());
    let r = renamer.rename_file(&b"root/scan.pdf".to_vec(), &vec![]);
    assert_eq!(r, Err(RenameError::InvalidDateFormat));
}

#[test]
fn rename_error_messages_are_stable() {
    assert_eq!(RenameError::NoStem.message(), "file has no stem");
    assert_eq!(RenameError::NoExtension.message(), "file has no extension");
    assert_eq!(
        RenameError::NoParentDirectory.message(),
        "file has no parent directory"
    );
    assert_eq!(RenameError::IoError.message(), "i/o error");
    assert_eq!(
        RenameError::NoAvailableFilename.message(),
        "could not find available filename"
    );
    assert_eq!(RenameError::InvalidDateFormat.message(), "invalid date format");
}
