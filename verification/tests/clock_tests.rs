use radio_backend::clock::{rate_limit_cutoff, submission_cutoff};

#[test]
fn cutoff_is_window_before_now() {
    assert_eq!(rate_limit_cutoff(300, 300).as_deref(), Some("1970-01-01 00:00:00"));
    assert_eq!(rate_limit_cutoff(86_400 + 3_600 + 300, 300).as_deref(), Some("1970-01-02 01:00:00"));
    assert_eq!(rate_limit_cutoff(1_700_000_000, 0).as_deref(), Some("2023-11-14 22:13:20"));
}

#[test]
fn submission_cutoff_reads_the_clock() {
    let before = chrono::Utc::now().timestamp();
    let c = submission_cutoff(60).unwrap();
    let after = chrono::Utc::now().timestamp();
    assert!(before > 1_600_000_000);
    let matches = (before..=after).any(|t| rate_limit_cutoff(t, 60).as_deref() == Some(c.as_str()));
    assert!(matches, "cutoff {} is not 60 s before a clock reading", c);
}
