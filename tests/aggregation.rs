use companion_core::aggregate::process_people;
use companion_core::grouping::Payload;
use companion_core::records::{
    cleaned_name, content_after_trim, is_green_or_yellow, should_include, unattempted,
    unattempted_or_unsuccessful, white_space, within_two_weeks, Person, TWO_WEEKS_MS,
};

const NOW: i64 = 1_700_000_000_000;
const DAY_MS: i64 = 24 * 60 * 60 * 1000;

fn person(first: &str, last: &str, status: i32, referral: i32, zone: &str, area: &str, ts: i64) -> Person {
    Person {
        person_guid: format!("{first}-{last}-{referral}"),
        first_name: Some(first.to_string()),
        last_name: Some(last.to_string()),
        referral_status_id: Some(referral),
        person_status_id: Some(status),
        zone_name: Some(zone.to_string()),
        area_name: Some(area.to_string()),
        find_id: None,
        referral_assigned_date: Some(ts),
    }
}

fn names(p: &Payload, zone: &str, area: &str) -> Vec<String> {
    p.names(zone, area).cloned().unwrap_or_default()
}

#[test]
fn end_to_end_batch() {
    let batch = vec![
        person("X", "Y", 1, 10, "", "Downtown", NOW),
        person("A", "B", 1, 10, "West", "Downtown", NOW),
        person("A", "B", 1, 20, "West", "Downtown", NOW),
    ];
    let out = process_people(batch, NOW);
    assert_eq!(names(&out, "West", "Downtown"), vec!["AB\u{2757}".to_string(), "AB".to_string()]);
    assert_eq!(out.zones().len(), 1);
    assert!(out.names("", "Downtown").is_none());
}

#[test]
fn drops_stale_absent_and_future_dates() {
    let mut absent = person("N", "O", 2, 10, "East", "Hill", NOW);
    absent.referral_assigned_date = None;
    let batch = vec![
        person("S", "T", 2, 10, "East", "Hill", NOW - 15 * DAY_MS),
        absent,
        person("F", "U", 2, 10, "East", "Hill", NOW + 1),
        person("E", "D", 2, 10, "East", "Hill", NOW - TWO_WEEKS_MS),
        person("J", "K", 2, 10, "East", "Hill", NOW - TWO_WEEKS_MS - 1),
    ];
    let out = process_people(batch, NOW);
    assert_eq!(names(&out, "East", "Hill"), vec!["ED\u{2757}".to_string()]);
}

#[test]
fn drops_blank_names_and_other_states() {
    let mut no_area = person("A", "A", 1, 10, "North", "Mid", NOW);
    no_area.area_name = None;
    let batch = vec![
        person("W", "S", 1, 10, "North", " \t ", NOW),
        person("Q", "R", 1, 10, "\u{3000}", "Mid", NOW),
        no_area,
        person("S", "5", 5, 10, "North", "Mid", NOW),
        person("S", "0", 0, 10, "North", "Mid", NOW),
        person("R", "30", 1, 30, "North", "Mid", NOW),
        person("K", "4", 4, 20, "North", "Mid", NOW),
        person("K", "3", 3, 10, " North ", "Mid", NOW),
    ];
    let out = process_people(batch, NOW);
    assert_eq!(names(&out, "North", "Mid"), vec!["K4".to_string()]);
    assert_eq!(names(&out, " North ", "Mid"), vec!["K3\u{2757}".to_string()]);
    assert_eq!(out.zones().len(), 2);
}

#[test]
fn duplicates_are_kept_and_grouped() {
    let batch = vec![
        person("A", "B", 1, 10, "West", "Downtown", NOW),
        person("C", "D", 1, 20, "West", "Uptown", NOW),
        person("A", "B", 1, 10, "West", "Downtown", NOW),
        person("E", "F", 2, 20, "South", "Bay", NOW - DAY_MS),
    ];
    let out = process_people(batch, NOW);
    assert_eq!(names(&out, "West", "Downtown"), vec!["AB\u{2757}".to_string(), "AB\u{2757}".to_string()]);
    assert_eq!(names(&out, "West", "Uptown"), vec!["CD".to_string()]);
    assert_eq!(names(&out, "South", "Bay"), vec!["EF".to_string()]);
    assert!(out.names("South", "Downtown").is_none());
}

#[test]
fn empty_batch_gives_empty_grouping() {
    let out = process_people(Vec::new(), NOW);
    assert!(out.zones().is_empty());
}

#[test]
fn marker_only_for_awaiting_contact() {
    let waiting = person("Ana", "Lee", 1, 10, "Z", "A", NOW);
    let unsuccessful = person("Ana", "Lee", 1, 20, "Z", "A", NOW);
    assert_eq!(cleaned_name(&waiting), "AnaLee\u{2757}");
    assert!(cleaned_name(&waiting).ends_with('\u{2757}'));
    assert_eq!(cleaned_name(&unsuccessful), "AnaLee");
    assert!(!cleaned_name(&unsuccessful).ends_with('\u{2757}'));
    let mut nameless = person("", "", 1, 10, "Z", "A", NOW);
    nameless.first_name = None;
    nameless.last_name = None;
    assert_eq!(cleaned_name(&nameless), "\u{2757}");
    nameless.last_name = Some("Solo".to_string());
    nameless.referral_status_id = None;
    assert_eq!(cleaned_name(&nameless), "Solo");
}

#[test]
fn status_predicates() {
    let mut p = person("A", "B", 1, 10, "Z", "A", NOW);
    for s in 1..=4 {
        p.person_status_id = Some(s);
        assert!(is_green_or_yellow(&p));
    }
    for s in [0, 5, -1, 100] {
        p.person_status_id = Some(s);
        assert!(!is_green_or_yellow(&p));
    }
    p.person_status_id = None;
    assert!(!is_green_or_yellow(&p));
    p.referral_status_id = Some(10);
    assert!(unattempted(&p) && unattempted_or_unsuccessful(&p));
    p.referral_status_id = Some(20);
    assert!(!unattempted(&p) && unattempted_or_unsuccessful(&p));
    p.referral_status_id = Some(30);
    assert!(!unattempted(&p) && !unattempted_or_unsuccessful(&p));
    p.referral_status_id = None;
    assert!(!unattempted(&p) && !unattempted_or_unsuccessful(&p));
}

#[test]
fn time_window_edges() {
    assert!(within_two_weeks(Some(NOW), NOW));
    assert!(within_two_weeks(Some(NOW - TWO_WEEKS_MS), NOW));
    assert!(!within_two_weeks(Some(NOW - TWO_WEEKS_MS - 1), NOW));
    assert!(!within_two_weeks(Some(NOW + 1), NOW));
    assert!(!within_two_weeks(None, NOW));
    assert!(!within_two_weeks(Some(i64::MIN), i64::MAX));
    assert!(!within_two_weeks(Some(-5), NOW));
    assert_eq!(TWO_WEEKS_MS, 14 * DAY_MS);
}

#[test]
fn should_include_needs_every_condition() {
    let p = person("A", "B", 3, 20, "Zone", "Area", NOW - 3 * DAY_MS);
    assert!(should_include(&p, NOW));
    assert!(!should_include(&p, NOW - 4 * DAY_MS));
    let mut q = person("A", "B", 3, 20, "Zone", "Area", NOW);
    q.zone_name = Some(String::new());
    assert!(!should_include(&q, NOW));
}

#[test]
fn white_space_matches_std() {
    for u in 0u32..=0x10FFFF {
        if let Some(c) = char::from_u32(u) {
            assert_eq!(white_space(c), c.is_whitespace(), "U+{u:04X}");
        }
    }
}

#[test]
fn content_after_trim_matches_std() {
    for s in ["", " ", "\t\n", "a", " a ", "\u{2028}\u{00A0}", "\u{200B}", "x\u{3000}"] {
        assert_eq!(content_after_trim(s), !s.trim().is_empty(), "{s:?}");
    }
}

#[test]
fn payload_insert_creates_levels() {
    let mut p = Payload::new();
    p.insert("West", "Downtown", "AB");
    p.insert("West", "Uptown", "CD");
    p.insert("East", "Downtown", "EF");
    p.insert("West", "Downtown", "AB");
    assert_eq!(names(&p, "West", "Downtown"), vec!["AB".to_string(), "AB".to_string()]);
    assert_eq!(names(&p, "West", "Uptown"), vec!["CD".to_string()]);
    assert_eq!(names(&p, "East", "Downtown"), vec!["EF".to_string()]);
    assert_eq!(p.zones().len(), 2);
    assert_eq!(p.zones()[0].areas.len(), 2);
}
