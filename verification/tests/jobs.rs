use label_print::jobs::{check_job_status, get_job_id};

#[test]
fn get_job_id_takes_the_first_token_of_the_printers_line() {
    let listing = "zprint-12          user        1024   Thu 01 Jan 2024 10:00:00\n";
    assert_eq!(get_job_id(listing, "zprint"), Some("zprint-12".to_string()));
}

#[test]
fn get_job_id_takes_the_first_line_that_matches() {
    let listing = "other-3   user  10  Thu\nzprint-12  user  1024  Thu\nzprint-13  user  2048  Thu\n";
    assert_eq!(get_job_id(listing, "zprint"), Some("zprint-12".to_string()));
}

#[test]
fn get_job_id_matches_the_printer_anywhere_in_the_line() {
    let listing = "417  user  queued on zprint\n";
    assert_eq!(get_job_id(listing, "zprint"), Some("417".to_string()));
}

#[test]
fn get_job_id_takes_a_line_with_a_single_token() {
    let listing = "zprint-11\nzprint-12 user\n";
    assert_eq!(get_job_id(listing, "zprint"), Some("zprint-11".to_string()));
    assert_eq!(get_job_id("zprint-11\n", "zprint"), Some("zprint-11".to_string()));
}

#[test]
fn get_job_id_takes_the_first_line_whatever_follows() {
    let listing = "zprint-12\nzprint-13 alice 2048 Mon\n";
    assert_eq!(get_job_id(listing, "zprint"), Some("zprint-12".to_string()));
}

#[test]
fn get_job_id_takes_the_leading_token_after_white_space() {
    assert_eq!(get_job_id("  \tzprint-12  user\n", "zprint"), Some("zprint-12".to_string()));
    assert_eq!(get_job_id("job-7 for zprint\r\n", "zprint"), Some("job-7".to_string()));
}

#[test]
fn get_job_id_passes_over_a_line_without_a_token() {
    assert_eq!(get_job_id("\n   \nzprint-12 user\n", ""), Some("zprint-12".to_string()));
    assert_eq!(get_job_id("   \n\t \n", " "), None);
    assert_eq!(get_job_id("", ""), None);
}

#[test]
fn get_job_id_finds_nothing_where_the_printer_is_not_listed() {
    let listing = "other-3   user  10  Thu\nmore-4   user  10  Thu\n";
    assert_eq!(get_job_id(listing, "zprint"), None);
    assert_eq!(get_job_id("", "zprint"), None);
}

#[test]
fn check_job_status_looks_for_the_identifier_anywhere() {
    let listing = "other-3   user  10  Thu\nzprint-12  user  1024  Thu\n";
    assert!(check_job_status(listing, "zprint-12"));
    assert!(check_job_status(listing, "other-3"));
    assert!(!check_job_status(listing, "zprint-13"));
    assert!(!check_job_status("", "zprint-12"));
}

#[test]
fn check_job_status_matches_a_longer_identifier_that_begins_alike() {
    assert!(check_job_status("zprint-123  user  1024  Thu\n", "zprint-12"));
}
