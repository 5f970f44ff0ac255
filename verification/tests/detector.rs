use hypixel_watch::detector::EventDetector;
use hypixel_watch::detector::last_non_blank_line;
use hypixel_watch::detector::split_names;
use hypixel_watch::detector::trigger_capture;
use hypixel_watch::text::find_str;
use hypixel_watch::text::replace_str;
use hypixel_watch::text::str_eq;

#[test]
fn extracts_announced_names_in_order() {
    let mut d = EventDetector::new();
    let names = d.on_modify("[CHAT] ONLINE: Alice, Bob, Carol");
    assert_eq!(
        names,
        Some(vec!["Alice".to_string(), "Bob".to_string(), "Carol".to_string()])
    );
}

#[test]
fn second_identical_notification_is_suppressed() {
    let content = "noise\n[CHAT] ONLINE: Alice, Bob\n";
    let mut d = EventDetector::new();
    assert!(d.on_modify(content).is_some());
    assert_eq!(d.on_modify(content), None);
}

#[test]
fn unchanged_last_line_is_suppressed_even_when_earlier_content_differs() {
    let mut d = EventDetector::new();
    assert!(d.on_modify("one\n[CHAT] ONLINE: Alice\n").is_some());
    // more was appended and then blanked; the last non-blank line is the same
    assert_eq!(d.on_modify("one\ntwo\n[CHAT] ONLINE: Alice\n   \n"), None);
}

#[test]
fn non_matching_line_dispatches_nothing_but_moves_the_baseline() {
    let mut d = EventDetector::new();
    assert_eq!(d.on_modify("[CHAT] You purchased something"), None);
    // the unmatched line became the baseline: repeating it stays silent
    assert_eq!(d.on_modify("[CHAT] You purchased something"), None);
    // a new matching line still fires
    assert!(d.on_modify("[CHAT] ONLINE: Dave").is_some());
}

#[test]
fn trailing_blank_lines_are_skipped() {
    let mut d = EventDetector::new();
    let names = d.on_modify("one\n[CHAT] ONLINE: Dave\n   \n\t\n\n");
    assert_eq!(names, Some(vec!["Dave".to_string()]));
}

#[test]
fn carriage_returns_are_stripped() {
    let mut d = EventDetector::new();
    let names = d.on_modify("one\r\n[CHAT] ONLINE: Eve\r\n");
    assert_eq!(names, Some(vec!["Eve".to_string()]));
}

#[test]
fn empty_content_is_suppressed() {
    let mut d = EventDetector::new();
    assert_eq!(d.on_modify(""), None);
    assert_eq!(d.on_modify("   \n\n"), None);
}

#[test]
fn empty_capture_yields_no_names() {
    let mut d = EventDetector::new();
    let names = d.on_modify("[CHAT] ONLINE: ");
    assert_eq!(names, Some(vec![]));
}

#[test]
fn marker_must_be_present() {
    assert_eq!(trigger_capture("ONLINE: Alice"), None);
    assert_eq!(
        trigger_capture("12:00 [CHAT] ONLINE: Alice, Bob"),
        Some("Alice, Bob".to_string())
    );
}

#[test]
fn capture_starts_after_the_leftmost_marker() {
    let mut d = EventDetector::new();
    let names = d.on_modify("[CHAT] ONLINE: [CHAT] ONLINE: X");
    assert_eq!(names, Some(vec!["[CHAT] ONLINE: X".to_string()]));
}

#[test]
fn last_non_blank_line_basics() {
    assert_eq!(last_non_blank_line(""), "");
    assert_eq!(last_non_blank_line("a\nb\nc"), "c");
    assert_eq!(last_non_blank_line("a\nb\n\n  \n"), "b");
    assert_eq!(last_non_blank_line("\n\n \n"), "");
}

#[test]
fn split_names_basics() {
    assert_eq!(split_names(""), Vec::<String>::new());
    assert_eq!(split_names("Solo"), vec!["Solo".to_string()]);
    assert_eq!(
        split_names("A, B, C"),
        vec!["A".to_string(), "B".to_string(), "C".to_string()]
    );
    // a lone comma without the blank is not a separator
    assert_eq!(split_names("A,B"), vec!["A,B".to_string()]);
}

#[test]
fn find_str_is_leftmost() {
    assert_eq!(find_str("abcabc", "bc"), Some(1));
    assert_eq!(find_str("abcabc", "zz"), None);
    assert_eq!(find_str("abc", ""), Some(0));
}

#[test]
fn replace_str_replaces_all_leftmost() {
    assert_eq!(replace_str("MVP_PLUS", "_PLUS", "+"), "MVP+");
    assert_eq!(replace_str("a_b_b_c", "_b", "-"), "a--_c");
    assert_eq!(replace_str("none", "_PLUS", "+"), "none");
}

#[test]
fn str_eq_compares_contents() {
    assert!(str_eq("SUPERSTAR", "SUPERSTAR"));
    assert!(!str_eq("SUPERSTAR", "superstar"));
    assert!(!str_eq("a", "ab"));
}
