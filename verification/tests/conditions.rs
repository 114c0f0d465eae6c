use aquerty_stop::conditions::{
    idle_seconds, is_process_running, lowered_process_matches, process_matches, ConditionReadings,
    ConditionTracker,
};
use aquerty_stop::names::list_process_names;
use aquerty_stop::power::SmartConditions;

fn readings(within: bool, idle: u64, running: bool) -> ConditionReadings {
    ConditionReadings {
        cpu_percent_bits: 12.0f32.to_bits(),
        cpu_within_threshold: within,
        cpu_label: "12".to_string(),
        idle_seconds: idle,
        process_running: running,
    }
}

#[test]
fn no_condition_summary() {
    let mut t = ConditionTracker::default();
    let s = t.evaluate(&readings(true, 0, false), &SmartConditions::none(), 0);
    assert!(s.all_met);
    assert_eq!(s.summary, "Aucune condition");
    assert_eq!(s.process_running, None);
    assert_eq!(t.cpu_ok_for_seconds, 0);
}

#[test]
fn cpu_condition_counts_consecutive_seconds() {
    let mut c = SmartConditions::none();
    c.cpu_below_percent_bits = Some(15.0f32.to_bits());
    c.cpu_for_seconds = Some(2);
    let mut t = ConditionTracker::default();
    let s = t.evaluate(&readings(true, 0, false), &c, 0);
    assert!(!s.all_met);
    assert_eq!(s.summary, "CPU 12% (ok 1s/2s)");
    let s = t.evaluate(&readings(true, 0, false), &c, 0);
    assert!(s.all_met);
    assert_eq!(s.cpu_ok_for_seconds, 2);
    let s = t.evaluate(&readings(false, 0, false), &c, 0);
    assert!(!s.all_met);
    assert_eq!(t.cpu_ok_for_seconds, 0);
}

#[test]
fn cpu_condition_needs_at_least_one_second() {
    let mut c = SmartConditions::none();
    c.cpu_below_percent_bits = Some(50.0f32.to_bits());
    let mut t = ConditionTracker::default();
    let s = t.evaluate(&readings(true, 0, false), &c, 0);
    assert!(s.all_met);
    assert_eq!(s.summary, "CPU 12% (ok 1s/0s)");
}

#[test]
fn full_summary() {
    let mut c = SmartConditions::none();
    c.cpu_below_percent_bits = Some(15.0f32.to_bits());
    c.process_closed = Some("vlc".to_string());
    c.idle_seconds = Some(30);
    c.target_unix = Some(100);
    let mut t = ConditionTracker::default();
    let s = t.evaluate(&readings(false, 40, true), &c, 50);
    assert!(!s.all_met);
    assert!(!s.target_reached);
    assert_eq!(s.process_running, Some(true));
    assert_eq!(
        s.summary,
        "CPU 12% (ok 0s/0s) · vlc encore ouvert · Inactivité 40s/30s · En attente de l'heure cible"
    );
    let s = t.evaluate(&readings(true, 40, false), &c, 100);
    assert!(s.all_met);
    assert_eq!(
        s.summary,
        "CPU 12% (ok 1s/0s) · vlc fermé · Inactivité 40s/30s · Heure cible atteinte"
    );
}

#[test]
fn blank_process_name_is_not_watched() {
    let mut c = SmartConditions::none();
    c.process_closed = Some("  ".to_string());
    let mut t = ConditionTracker::default();
    let s = t.evaluate(&readings(true, 0, true), &c, 0);
    assert_eq!(s.process_running, None);
    assert!(s.all_met);
}

#[test]
fn process_names_match() {
    assert!(lowered_process_matches("vlc.exe", "vlc"));
    assert!(lowered_process_matches("vlc", "vlc"));
    assert!(lowered_process_matches("myvlcplayer", "vlc"));
    assert!(!lowered_process_matches("vl", "vlc"));
    assert!(process_matches("VLC.EXE", "vlc"));
    let names = vec!["explorer.exe".to_string(), "Steam.exe".to_string()];
    assert!(is_process_running(&names, " steam "));
    assert!(!is_process_running(&names, "vlc"));
    assert!(!is_process_running(&names, "   "));
}

#[test]
fn idle_is_zero_here() {
    assert_eq!(idle_seconds(), 0);
}

#[test]
fn process_list_is_sorted_distinct_and_limited() {
    let names: Vec<String> = ["b", "a", "c", "a", "B", "b"].iter().map(|s| s.to_string()).collect();
    assert_eq!(list_process_names(&names, 120), vec!["B", "a", "b", "c"]);
    assert_eq!(list_process_names(&names, 2), vec!["B", "a"]);
    assert!(list_process_names(&names, 0).is_empty());
    assert!(list_process_names(&Vec::new(), 5).is_empty());
}
